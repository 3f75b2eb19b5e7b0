//! The two passes over every drawing of a document: sanitizing, which
//! turns fragile floating drawings into inline ones, and validating, which
//! looks for positions that lack what they need.
//!
//! Both passes visit the drawings in document order: the runs of a
//! paragraph, the runs of its hyperlinks and of runs embedded with a
//! writing direction. The warnings come out in that order.

use vstd::prelude::*;
use crate::compat::{warnings_model, DrawingCompatibilityWarning, Pass, WarningModel};
use crate::document::{
    BidirectionalEmbedding, Body, BodyContent, Footer, Header, Hyperlink, Paragraph,
    ParagraphContent, Run, RunContent,
};

verus! {

/// A part of a document tree that may hold drawings.
pub trait DrawingTree: Sized {
    /// The warnings that a pass gives, in document order.
    spec fn warnings(&self, pass: Pass) -> Seq<WarningModel>;

    /// Whether this value is `before` with every fragile floating drawing
    /// turned inline and nothing else changed.
    spec fn is_sanitized_from(&self, before: Self) -> bool;

    /// Turns every fragile floating drawing into an inline one and adds a
    /// warning for each to the list, in document order.
    fn sanitize_drawings(&mut self, warnings: &mut Vec<DrawingCompatibilityWarning>)
        ensures
            final(self).is_sanitized_from(*old(self)),
            warnings_model(final(warnings)@) == warnings_model(old(warnings)@) + old(self).warnings(
                Pass::Sanitize,
            ),
    ;

    /// Adds a warning to the list for every floating drawing whose
    /// positions lack what they need, in document order. Nothing is
    /// changed.
    fn validate_drawings(&self, warnings: &mut Vec<DrawingCompatibilityWarning>)
        ensures
            warnings_model(final(warnings)@) == warnings_model(old(warnings)@) + self.warnings(
                Pass::Validate,
            ),
    ;
}

/// The warnings that a pass gives for the first `count` values of a list,
/// in order.
pub open spec fn warnings_among<T: DrawingTree>(values: Seq<T>, pass: Pass, count: nat) -> Seq<
    WarningModel,
>
    decreases count,
{
    if count == 0 || count > values.len() {
        Seq::empty()
    } else {
        warnings_among(values, pass, (count - 1) as nat) + values[count - 1].warnings(pass)
    }
}

/// The warnings that a pass gives for the values of a list, in order.
pub open spec fn warnings_of<T: DrawingTree>(values: Seq<T>, pass: Pass) -> Seq<WarningModel> {
    warnings_among(values, pass, values.len())
}

/// Whether the values `after` are the values `before`, one by one, with
/// every fragile floating drawing turned inline.
pub open spec fn all_sanitized<T: DrawingTree>(after: Seq<T>, before: Seq<T>) -> bool {
    &&& after.len() == before.len()
    &&& forall|i: int| 0 <= i < after.len() ==> (#[trigger] after[i]).is_sanitized_from(before[i])
}

/// Appends warnings to a list.
fn append_warnings(
    out: &mut Vec<DrawingCompatibilityWarning>,
    more: Vec<DrawingCompatibilityWarning>,
)
    ensures
        warnings_model(final(out)@) == warnings_model(old(out)@) + warnings_model(more@),
{
    let mut more = more;
    let ghost added = more@;
    out.append(&mut more);
    assert(warnings_model(out@) =~= warnings_model(old(out)@) + warnings_model(added));
}

/// Sanitizes the drawings of the values of a list, in order.
pub fn sanitize_all<T: DrawingTree>(
    values: &mut Vec<T>,
    warnings: &mut Vec<DrawingCompatibilityWarning>,
)
    ensures
        all_sanitized(final(values)@, old(values)@),
        warnings_model(final(warnings)@) == warnings_model(old(warnings)@) + warnings_of(
            old(values)@,
            Pass::Sanitize,
        ),
{
    let ghost base = warnings_model(warnings@);
    assert(base + Seq::<WarningModel>::empty() =~= base);
    let mut i: usize = 0;
    while i < values.len()
        invariant
            i <= values@.len(),
            values@.len() == old(values)@.len(),
            forall|k: int| 0 <= k < i ==> (#[trigger] values@[k]).is_sanitized_from(old(values)@[k]),
            forall|k: int| i <= k < values@.len() ==> values@[k] == old(values)@[k],
            warnings_model(warnings@) == base + warnings_among(
                old(values)@,
                Pass::Sanitize,
                i as nat,
            ),
        decreases values@.len() - i,
    {
        values[i].sanitize_drawings(warnings);
        assert(warnings_model(warnings@) =~= base + warnings_among(
            old(values)@,
            Pass::Sanitize,
            (i + 1) as nat,
        ));
        i = i + 1;
    }
}

/// Validates the drawings of the values of a list, in order.
pub fn validate_all<T: DrawingTree>(
    values: &Vec<T>,
    warnings: &mut Vec<DrawingCompatibilityWarning>,
)
    ensures
        warnings_model(final(warnings)@) == warnings_model(old(warnings)@) + warnings_of(
            values@,
            Pass::Validate,
        ),
{
    let ghost base = warnings_model(warnings@);
    assert(base + Seq::<WarningModel>::empty() =~= base);
    let mut i: usize = 0;
    while i < values.len()
        invariant
            i <= values@.len(),
            warnings_model(warnings@) == base + warnings_among(values@, Pass::Validate, i as nat),
        decreases values@.len() - i,
    {
        values[i].validate_drawings(warnings);
        assert(warnings_model(warnings@) =~= base + warnings_among(
            values@,
            Pass::Validate,
            (i + 1) as nat,
        ));
        i = i + 1;
    }
}

impl DrawingTree for RunContent {
    /// The warnings of a drawing; none for any other piece.
    open spec fn warnings(&self, pass: Pass) -> Seq<WarningModel> {
        match self {
            RunContent::Drawing(d) => d.warnings(pass),
            _ => Seq::empty(),
        }
    }

    /// A drawing is sanitized, any other piece is the same.
    open spec fn is_sanitized_from(&self, before: RunContent) -> bool {
        match before {
            RunContent::Drawing(d) => self matches RunContent::Drawing(n) && n == d.sanitized(),
            _ => *self == before,
        }
    }

    fn sanitize_drawings(&mut self, warnings: &mut Vec<DrawingCompatibilityWarning>) {
        match self {
            RunContent::Drawing(d) => {
                match d.sanitize_for_compatibility() {
                    Ok(found) => {
                        append_warnings(warnings, found);
                    },
                    Err(_) => {},
                }
            },
            _ => {
                assert(warnings_model(warnings@) + Seq::<WarningModel>::empty() =~= warnings_model(
                    warnings@,
                ));
            },
        }
    }

    fn validate_drawings(&self, warnings: &mut Vec<DrawingCompatibilityWarning>) {
        match self {
            RunContent::Drawing(d) => {
                append_warnings(warnings, d.validate_compatibility());
            },
            _ => {
                assert(warnings_model(warnings@) + Seq::<WarningModel>::empty() =~= warnings_model(
                    warnings@,
                ));
            },
        }
    }
}

impl DrawingTree for Run {
    open spec fn warnings(&self, pass: Pass) -> Seq<WarningModel> {
        warnings_of(self.content@, pass)
    }

    open spec fn is_sanitized_from(&self, before: Run) -> bool {
        all_sanitized(self.content@, before.content@)
    }

    fn sanitize_drawings(&mut self, warnings: &mut Vec<DrawingCompatibilityWarning>) {
        sanitize_all(&mut self.content, warnings);
    }

    fn validate_drawings(&self, warnings: &mut Vec<DrawingCompatibilityWarning>) {
        validate_all(&self.content, warnings);
    }
}

impl DrawingTree for BidirectionalEmbedding {
    open spec fn warnings(&self, pass: Pass) -> Seq<WarningModel> {
        warnings_of(self.content@, pass)
    }

    open spec fn is_sanitized_from(&self, before: BidirectionalEmbedding) -> bool {
        self.direction == before.direction && all_sanitized(self.content@, before.content@)
    }

    fn sanitize_drawings(&mut self, warnings: &mut Vec<DrawingCompatibilityWarning>) {
        sanitize_all(&mut self.content, warnings);
    }

    fn validate_drawings(&self, warnings: &mut Vec<DrawingCompatibilityWarning>) {
        validate_all(&self.content, warnings);
    }
}

/// The warnings that a pass gives for runs embedded with a writing
/// direction that may be absent.
pub open spec fn embedded_warnings(embedding: Option<BidirectionalEmbedding>, pass: Pass) -> Seq<
    WarningModel,
> {
    match embedding {
        Some(b) => b.warnings(pass),
        None => Seq::empty(),
    }
}

impl DrawingTree for Hyperlink {
    /// The warnings of the runs, then those of the embedded runs.
    open spec fn warnings(&self, pass: Pass) -> Seq<WarningModel> {
        warnings_of(self.content@, pass) + embedded_warnings(self.bidirectional_embedding, pass)
    }

    open spec fn is_sanitized_from(&self, before: Hyperlink) -> bool {
        &&& self.id == before.id
        &&& self.anchor == before.anchor
        &&& all_sanitized(self.content@, before.content@)
        &&& match (self.bidirectional_embedding, before.bidirectional_embedding) {
            (Some(a), Some(b)) => a.is_sanitized_from(b),
            (None, None) => true,
            _ => false,
        }
    }

    fn sanitize_drawings(&mut self, warnings: &mut Vec<DrawingCompatibilityWarning>) {
        let ghost base = warnings_model(warnings@);
        sanitize_all(&mut self.content, warnings);
        let ghost so_far = warnings_model(warnings@);
        match &mut self.bidirectional_embedding {
            Some(b) => {
                b.sanitize_drawings(warnings);
            },
            None => {
                assert(so_far + Seq::<WarningModel>::empty() =~= so_far);
            },
        }
        assert(warnings_model(warnings@) =~= base + old(self).warnings(Pass::Sanitize));
    }

    fn validate_drawings(&self, warnings: &mut Vec<DrawingCompatibilityWarning>) {
        let ghost base = warnings_model(warnings@);
        validate_all(&self.content, warnings);
        let ghost so_far = warnings_model(warnings@);
        match &self.bidirectional_embedding {
            Some(b) => {
                b.validate_drawings(warnings);
            },
            None => {
                assert(so_far + Seq::<WarningModel>::empty() =~= so_far);
            },
        }
        assert(warnings_model(warnings@) =~= base + self.warnings(Pass::Validate));
    }
}

impl DrawingTree for ParagraphContent {
    open spec fn warnings(&self, pass: Pass) -> Seq<WarningModel> {
        match self {
            ParagraphContent::Run(r) => r.warnings(pass),
            ParagraphContent::Link(h) => h.warnings(pass),
            ParagraphContent::Bidi(b) => b.warnings(pass),
            ParagraphContent::Other(_) => Seq::empty(),
        }
    }

    /// Runs, hyperlinks and embedded runs are sanitized; content kept
    /// unread is the same.
    open spec fn is_sanitized_from(&self, before: ParagraphContent) -> bool {
        match before {
            ParagraphContent::Run(b) => self matches ParagraphContent::Run(a)
                && a.is_sanitized_from(b),
            ParagraphContent::Link(b) => self matches ParagraphContent::Link(a)
                && a.is_sanitized_from(b),
            ParagraphContent::Bidi(b) => self matches ParagraphContent::Bidi(a)
                && a.is_sanitized_from(b),
            ParagraphContent::Other(_) => *self == before,
        }
    }

    fn sanitize_drawings(&mut self, warnings: &mut Vec<DrawingCompatibilityWarning>) {
        match self {
            ParagraphContent::Run(r) => {
                r.sanitize_drawings(warnings);
            },
            ParagraphContent::Link(h) => {
                h.sanitize_drawings(warnings);
            },
            ParagraphContent::Bidi(b) => {
                b.sanitize_drawings(warnings);
            },
            ParagraphContent::Other(_) => {
                assert(warnings_model(warnings@) + Seq::<WarningModel>::empty() =~= warnings_model(
                    warnings@,
                ));
            },
        }
    }

    fn validate_drawings(&self, warnings: &mut Vec<DrawingCompatibilityWarning>) {
        match self {
            ParagraphContent::Run(r) => {
                r.validate_drawings(warnings);
            },
            ParagraphContent::Link(h) => {
                h.validate_drawings(warnings);
            },
            ParagraphContent::Bidi(b) => {
                b.validate_drawings(warnings);
            },
            ParagraphContent::Other(_) => {
                assert(warnings_model(warnings@) + Seq::<WarningModel>::empty() =~= warnings_model(
                    warnings@,
                ));
            },
        }
    }
}

impl DrawingTree for Paragraph {
    open spec fn warnings(&self, pass: Pass) -> Seq<WarningModel> {
        warnings_of(self.content@, pass)
    }

    open spec fn is_sanitized_from(&self, before: Paragraph) -> bool {
        all_sanitized(self.content@, before.content@)
    }

    fn sanitize_drawings(&mut self, warnings: &mut Vec<DrawingCompatibilityWarning>) {
        sanitize_all(&mut self.content, warnings);
    }

    fn validate_drawings(&self, warnings: &mut Vec<DrawingCompatibilityWarning>) {
        validate_all(&self.content, warnings);
    }
}

impl DrawingTree for BodyContent {
    /// The warnings of a paragraph; none for any other piece.
    open spec fn warnings(&self, pass: Pass) -> Seq<WarningModel> {
        match self {
            BodyContent::Paragraph(p) => p.warnings(pass),
            _ => Seq::empty(),
        }
    }

    /// A paragraph is sanitized, any other piece is the same.
    open spec fn is_sanitized_from(&self, before: BodyContent) -> bool {
        match before {
            BodyContent::Paragraph(b) => self matches BodyContent::Paragraph(a)
                && a.is_sanitized_from(b),
            _ => *self == before,
        }
    }

    fn sanitize_drawings(&mut self, warnings: &mut Vec<DrawingCompatibilityWarning>) {
        match self {
            BodyContent::Paragraph(p) => {
                p.sanitize_drawings(warnings);
            },
            _ => {
                assert(warnings_model(warnings@) + Seq::<WarningModel>::empty() =~= warnings_model(
                    warnings@,
                ));
            },
        }
    }

    fn validate_drawings(&self, warnings: &mut Vec<DrawingCompatibilityWarning>) {
        match self {
            BodyContent::Paragraph(p) => {
                p.validate_drawings(warnings);
            },
            _ => {
                assert(warnings_model(warnings@) + Seq::<WarningModel>::empty() =~= warnings_model(
                    warnings@,
                ));
            },
        }
    }
}

impl DrawingTree for Body {
    open spec fn warnings(&self, pass: Pass) -> Seq<WarningModel> {
        warnings_of(self.content@, pass)
    }

    open spec fn is_sanitized_from(&self, before: Body) -> bool {
        all_sanitized(self.content@, before.content@)
    }

    fn sanitize_drawings(&mut self, warnings: &mut Vec<DrawingCompatibilityWarning>) {
        sanitize_all(&mut self.content, warnings);
    }

    fn validate_drawings(&self, warnings: &mut Vec<DrawingCompatibilityWarning>) {
        validate_all(&self.content, warnings);
    }
}

impl DrawingTree for Header {
    open spec fn warnings(&self, pass: Pass) -> Seq<WarningModel> {
        warnings_of(self.content@, pass)
    }

    open spec fn is_sanitized_from(&self, before: Header) -> bool {
        self.attributes == before.attributes && all_sanitized(self.content@, before.content@)
    }

    fn sanitize_drawings(&mut self, warnings: &mut Vec<DrawingCompatibilityWarning>) {
        sanitize_all(&mut self.content, warnings);
    }

    fn validate_drawings(&self, warnings: &mut Vec<DrawingCompatibilityWarning>) {
        validate_all(&self.content, warnings);
    }
}

impl DrawingTree for Footer {
    open spec fn warnings(&self, pass: Pass) -> Seq<WarningModel> {
        warnings_of(self.content@, pass)
    }

    open spec fn is_sanitized_from(&self, before: Footer) -> bool {
        self.attributes == before.attributes && all_sanitized(self.content@, before.content@)
    }

    fn sanitize_drawings(&mut self, warnings: &mut Vec<DrawingCompatibilityWarning>) {
        sanitize_all(&mut self.content, warnings);
    }

    fn validate_drawings(&self, warnings: &mut Vec<DrawingCompatibilityWarning>) {
        validate_all(&self.content, warnings);
    }
}

/// A part under its file name: the name stays, the part is visited.
impl<T: DrawingTree> DrawingTree for (String, T) {
    open spec fn warnings(&self, pass: Pass) -> Seq<WarningModel> {
        self.1.warnings(pass)
    }

    open spec fn is_sanitized_from(&self, before: (String, T)) -> bool {
        self.0 == before.0 && self.1.is_sanitized_from(before.1)
    }

    fn sanitize_drawings(&mut self, warnings: &mut Vec<DrawingCompatibilityWarning>) {
        self.1.sanitize_drawings(warnings);
    }

    fn validate_drawings(&self, warnings: &mut Vec<DrawingCompatibilityWarning>) {
        self.1.validate_drawings(warnings);
    }
}

} // verus!
