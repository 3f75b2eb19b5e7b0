//! Keeping drawings openable: which floating drawings are fragile, how a
//! fragile one becomes an inline drawing, and which positions lack what
//! they need.
//!
//! A drawing is floating or inline. Sanitizing turns a fragile floating
//! drawing into an inline one and never the other way round; an inline or a
//! sturdy floating drawing is left as it is.

use vstd::prelude::*;
use vstd::string::StringExecFns;
use crate::drawing::{Anchor, Drawing, EffectExtent, Inline};
use crate::error::DocxError;
use crate::lexical::str_eq;

verus! {

/// Something about a drawing that a caller should know of; none of these
/// stops a document from being written.
#[derive(Debug)]
pub enum DrawingCompatibilityWarning {
    /// A fragile floating drawing was turned into an inline one.
    ComplexAnchorConverted { reason: String },
    /// Positions of a floating drawing lack the elements named.
    MissingRequiredElements { elements: Vec<String> },
    /// A boolean field is not written as `1` or `0`.
    InvalidBooleanFormat { field: String },
}

/// The mathematical value of a warning.
pub enum WarningModel {
    ComplexAnchorConverted { reason: Seq<char> },
    MissingRequiredElements { elements: Seq<Seq<char>> },
    InvalidBooleanFormat { field: Seq<char> },
}

impl View for DrawingCompatibilityWarning {
    type V = WarningModel;

    open spec fn view(&self) -> WarningModel {
        match self {
            DrawingCompatibilityWarning::ComplexAnchorConverted { reason } => {
                WarningModel::ComplexAnchorConverted { reason: reason@ }
            },
            DrawingCompatibilityWarning::MissingRequiredElements { elements } => {
                WarningModel::MissingRequiredElements {
                    elements: Seq::new(elements@.len(), |i: int| elements@[i]@),
                }
            },
            DrawingCompatibilityWarning::InvalidBooleanFormat { field } => {
                WarningModel::InvalidBooleanFormat { field: field@ }
            },
        }
    }
}

/// The values of a list of warnings.
pub open spec fn warnings_model(warnings: Seq<DrawingCompatibilityWarning>) -> Seq<WarningModel> {
    Seq::new(warnings.len(), |i: int| warnings[i]@)
}

/// The two passes over the drawings of a document.
#[derive(Debug, Clone, Copy, PartialEq, Eq)]
pub enum Pass {
    /// Turns fragile floating drawings into inline ones.
    Sanitize,
    /// Looks for positions that lack what they need.
    Validate,
}

/// What makes a floating drawing fragile.
#[derive(Debug, Clone, Copy, PartialEq, Eq)]
pub enum Fragility {
    /// The horizontal position is given by an alignment keyword.
    HorizontalAlignment,
    /// The vertical position is given by an alignment keyword.
    VerticalAlignment,
    /// Effects take room beyond the edges.
    EffectExtent,
    /// The width is a share of something else.
    RelativeWidth,
    /// The height is a share of something else.
    RelativeHeight,
    /// The drawing stands behind the text.
    BehindDocument,
    /// The simple position is not used.
    NoSimplePosition,
}

impl Fragility {
    /// The words that a warning gives as its reason.
    pub open spec fn reason(&self) -> Seq<char> {
        match self {
            Fragility::HorizontalAlignment => "horizontal alignment keyword"@,
            Fragility::VerticalAlignment => "vertical alignment keyword"@,
            Fragility::EffectExtent => "effect extent"@,
            Fragility::RelativeWidth => "relative width"@,
            Fragility::RelativeHeight => "relative height"@,
            Fragility::BehindDocument => "drawing behind the text"@,
            Fragility::NoSimplePosition => "no simple position"@,
        }
    }

    /// The words that a warning gives as its reason.
    pub fn describe(&self) -> (text: String)
        ensures
            text@ == self.reason(),
    {
        match self {
            Fragility::HorizontalAlignment => String::from_str("horizontal alignment keyword"),
            Fragility::VerticalAlignment => String::from_str("vertical alignment keyword"),
            Fragility::EffectExtent => String::from_str("effect extent"),
            Fragility::RelativeWidth => String::from_str("relative width"),
            Fragility::RelativeHeight => String::from_str("relative height"),
            Fragility::BehindDocument => String::from_str("drawing behind the text"),
            Fragility::NoSimplePosition => String::from_str("no simple position"),
        }
    }
}

impl EffectExtent {
    /// Whether effects take no room at all.
    pub open spec fn is_zero(&self) -> bool {
        self.l == 0 && self.t == 0 && self.r == 0 && self.b == 0
    }
}

impl Anchor {
    /// The first thing, in a fixed order, that makes the anchor fragile:
    /// an alignment keyword in a position, an effect extent other than
    /// zero, a relative size that is set, standing behind the text, or not
    /// using the simple position. Nothing for a sturdy anchor.
    pub open spec fn fragility(&self) -> Option<Fragility> {
        if self.position_horizontal matches Some(p) && p.align is Some {
            Some(Fragility::HorizontalAlignment)
        } else if self.position_vertical matches Some(p) && p.align is Some {
            Some(Fragility::VerticalAlignment)
        } else if self.effect_extent matches Some(e) && !e.is_zero() {
            Some(Fragility::EffectExtent)
        } else if self.size_rel_h matches Some(s) && !s.is_unset() {
            Some(Fragility::RelativeWidth)
        } else if self.size_rel_v matches Some(s) && !s.is_unset() {
            Some(Fragility::RelativeHeight)
        } else if self.behind_doc == Some(true) {
            Some(Fragility::BehindDocument)
        } else if !(self.simple_pos_attr matches Some(flag) && flag != 0) {
            Some(Fragility::NoSimplePosition)
        } else {
            None
        }
    }

    /// Whether the anchor is fragile.
    pub open spec fn is_fragile(&self) -> bool {
        self.fragility() is Some
    }

    /// Finds what makes the anchor fragile, if anything does.
    pub fn find_fragility(&self) -> (found: Option<Fragility>)
        ensures
            found == self.fragility(),
    {
        let horizontal = match &self.position_horizontal {
            Some(p) => p.align.is_some(),
            None => false,
        };
        let vertical = match &self.position_vertical {
            Some(p) => p.align.is_some(),
            None => false,
        };
        let effects = match &self.effect_extent {
            Some(e) => !(e.l == 0 && e.t == 0 && e.r == 0 && e.b == 0),
            None => false,
        };
        let width = match &self.size_rel_h {
            Some(s) => !(str_eq(s.relative_from.as_str(), "margin") && s.pct_width == 0),
            None => false,
        };
        let height = match &self.size_rel_v {
            Some(s) => !(str_eq(s.relative_from.as_str(), "margin") && s.pct_height == 0),
            None => false,
        };
        let behind = match self.behind_doc {
            Some(b) => b,
            None => false,
        };
        let simple = match self.simple_pos_attr {
            Some(flag) => flag != 0,
            None => false,
        };
        if horizontal {
            Some(Fragility::HorizontalAlignment)
        } else if vertical {
            Some(Fragility::VerticalAlignment)
        } else if effects {
            Some(Fragility::EffectExtent)
        } else if width {
            Some(Fragility::RelativeWidth)
        } else if height {
            Some(Fragility::RelativeHeight)
        } else if behind {
            Some(Fragility::BehindDocument)
        } else if !simple {
            Some(Fragility::NoSimplePosition)
        } else {
            None
        }
    }

    /// The inline drawing that the anchor becomes: its distances, size,
    /// identity and graphic, without position, stacking order or wrapping.
    pub open spec fn simple_inline(self) -> Inline {
        Inline {
            dist_t: self.dist_t,
            dist_b: self.dist_b,
            dist_l: self.dist_l,
            dist_r: self.dist_r,
            extent: self.extent,
            doc_property: self.doc_property,
            graphic: self.graphic,
        }
    }

    /// Whether the horizontal position lacks both alignment and offset.
    pub open spec fn lacks_horizontal(&self) -> bool {
        match self.position_horizontal {
            Some(p) => p.align is None && p.pos_offset is None,
            None => true,
        }
    }

    /// Whether the vertical position lacks both alignment and offset.
    pub open spec fn lacks_vertical(&self) -> bool {
        match self.position_vertical {
            Some(p) => p.align is None && p.pos_offset is None,
            None => true,
        }
    }

    /// The names of what the positions lack: the horizontal one first.
    pub open spec fn missing_elements(&self) -> Seq<Seq<char>> {
        (if self.lacks_horizontal() {
            seq!["positionH.align or positionH.posOffset"@]
        } else {
            Seq::empty()
        }) + (if self.lacks_vertical() {
            seq!["positionV.align or positionV.posOffset"@]
        } else {
            Seq::empty()
        })
    }

    /// Names what the positions of the anchor lack. The anchor is not
    /// changed.
    pub fn find_missing_elements(&self) -> (names: Vec<String>)
        ensures
            names@.len() == self.missing_elements().len(),
            forall|i: int| 0 <= i < names@.len() ==> names@[i]@ == self.missing_elements()[i],
    {
        let mut names: Vec<String> = Vec::new();
        let lacks_horizontal = match &self.position_horizontal {
            Some(p) => p.align.is_none() && p.pos_offset.is_none(),
            None => true,
        };
        if lacks_horizontal {
            names.push(String::from_str("positionH.align or positionH.posOffset"));
        }
        let lacks_vertical = match &self.position_vertical {
            Some(p) => p.align.is_none() && p.pos_offset.is_none(),
            None => true,
        };
        if lacks_vertical {
            names.push(String::from_str("positionV.align or positionV.posOffset"));
        }
        names
    }
}

impl Drawing {
    /// Whether at most one of the floating and the inline form is there.
    pub open spec fn well_formed(&self) -> bool {
        self.anchor is None || self.inline is None
    }

    /// Whether the drawing is inline and nothing else.
    pub open spec fn is_inline(&self) -> bool {
        self.anchor is None && self.inline is Some
    }

    /// The drawing after sanitizing: a fragile anchor has become the inline
    /// form, anything else is as before.
    pub open spec fn sanitized(self) -> Drawing {
        match self.anchor {
            Some(a) if a.is_fragile() => Drawing { anchor: None, inline: Some(a.simple_inline()) },
            _ => self,
        }
    }

    /// What makes sanitizing change the drawing, if anything does.
    pub open spec fn fragility(&self) -> Option<Fragility> {
        match self.anchor {
            Some(a) => a.fragility(),
            None => None,
        }
    }

    /// The warnings that a pass gives for the drawing: when sanitizing, one
    /// that names the reason where the drawing is a fragile anchor; when
    /// validating, one that names what the positions lack where the drawing
    /// is an anchor whose positions lack something; none otherwise.
    pub open spec fn warnings(&self, pass: Pass) -> Seq<WarningModel> {
        match pass {
            Pass::Sanitize => match self.fragility() {
                Some(cause) => seq![WarningModel::ComplexAnchorConverted { reason: cause.reason() }],
                None => Seq::empty(),
            },
            Pass::Validate => match self.anchor {
                Some(a) if a.missing_elements().len() > 0 => seq![
                    WarningModel::MissingRequiredElements { elements: a.missing_elements() },
                ],
                _ => Seq::empty(),
            },
        }
    }

    /// Whether an anchor is fragile, that is, whether sanitizing would turn
    /// it into an inline drawing.
    pub fn is_complex_anchor(&self, anchor: &Anchor) -> (complex: bool)
        ensures
            complex == anchor.is_fragile(),
    {
        anchor.find_fragility().is_some()
    }

    /// Turns an anchor into an inline drawing that keeps its distances,
    /// size, identity and graphic and drops everything else. Always
    /// succeeds.
    pub fn anchor_to_simple_inline(&self, anchor: Anchor) -> (r: Result<Inline, DocxError>)
        ensures
            r == Ok::<Inline, DocxError>(anchor.simple_inline()),
    {
        Ok(
            Inline {
                dist_t: anchor.dist_t,
                dist_b: anchor.dist_b,
                dist_l: anchor.dist_l,
                dist_r: anchor.dist_r,
                extent: anchor.extent,
                doc_property: anchor.doc_property,
                graphic: anchor.graphic,
            },
        )
    }

    /// Makes the drawing safe to open. A fragile anchor becomes an inline
    /// drawing and one warning names the reason; any other drawing is left
    /// untouched, without a warning. Always succeeds.
    pub fn sanitize_for_compatibility(&mut self) -> (r: Result<
        Vec<DrawingCompatibilityWarning>,
        DocxError,
    >)
        ensures
            r is Ok,
            *final(self) == old(self).sanitized(),
            r matches Ok(warnings) ==> match old(self).fragility() {
                Some(cause) => {
                    &&& warnings@.len() == 1
                    &&& warnings@[0] matches DrawingCompatibilityWarning::ComplexAnchorConverted {
                        reason,
                    }
                    &&& reason@ == cause.reason()
                },
                None => warnings@.len() == 0,
            },
            r matches Ok(warnings) ==> warnings_model(warnings@) == old(self).warnings(
                Pass::Sanitize,
            ),
    {
        let mut warnings: Vec<DrawingCompatibilityWarning> = Vec::new();
        proof {
            assert(warnings_model(warnings@) =~= Seq::empty());
        }
        let cause = match &self.anchor {
            Some(a) => a.find_fragility(),
            None => None,
        };
        if let Some(cause) = cause {
            if let Some(anchor) = self.anchor.take() {
                match self.anchor_to_simple_inline(anchor) {
                    Ok(inline) => {
                        self.inline = Some(inline);
                    },
                    Err(e) => {
                        return Err(e);
                    },
                }
                warnings.push(
                    DrawingCompatibilityWarning::ComplexAnchorConverted { reason: cause.describe() },
                );
                proof {
                    assert(warnings_model(warnings@) =~= old(self).warnings(Pass::Sanitize));
                }
            }
        }
        Ok(warnings)
    }

    /// Looks for positions that lack what they need, without changing the
    /// drawing: one warning for a floating drawing with such a position,
    /// none otherwise.
    pub fn validate_compatibility(&self) -> (warnings: Vec<DrawingCompatibilityWarning>)
        ensures
            match self.anchor {
                Some(a) if a.missing_elements().len() > 0 => {
                    &&& warnings@.len() == 1
                    &&& warnings@[0] matches DrawingCompatibilityWarning::MissingRequiredElements {
                        elements,
                    }
                    &&& elements@.len() == a.missing_elements().len()
                    &&& forall|i: int|
                        0 <= i < elements@.len() ==> elements@[i]@ == a.missing_elements()[i]
                },
                _ => warnings@.len() == 0,
            },
            warnings_model(warnings@) == self.warnings(Pass::Validate),
    {
        let mut warnings: Vec<DrawingCompatibilityWarning> = Vec::new();
        proof {
            assert(warnings_model(warnings@) =~= Seq::empty());
        }
        if let Some(anchor) = &self.anchor {
            let elements = anchor.find_missing_elements();
            if elements.len() > 0 {
                let ghost names = Seq::new(elements@.len(), |i: int| elements@[i]@);
                proof {
                    assert(names =~= anchor.missing_elements());
                }
                warnings.push(DrawingCompatibilityWarning::MissingRequiredElements { elements });
                proof {
                    assert(warnings_model(warnings@) =~= self.warnings(Pass::Validate));
                }
            }
        }
        warnings
    }
}

/// Sanitizing an inline drawing changes nothing and warns of nothing.
pub proof fn lemma_sanitize_inline_unchanged(drawing: Drawing)
    requires
        drawing.is_inline(),
    ensures
        drawing.sanitized() == drawing,
        drawing.warnings(Pass::Sanitize) == Seq::<WarningModel>::empty(),
{
}

/// Sanitizing a fragile floating drawing yields an inline drawing and
/// exactly one warning, which says that the anchor was converted and why.
pub proof fn lemma_sanitize_fragile_anchor(drawing: Drawing)
    requires
        drawing.anchor matches Some(a) && a.is_fragile(),
    ensures
        drawing.sanitized().is_inline(),
        drawing.warnings(Pass::Sanitize).len() == 1,
        drawing.warnings(Pass::Sanitize)[0] is ComplexAnchorConverted,
{
}

/// Sanitizing twice is the same as sanitizing once: the second pass changes
/// nothing and warns of nothing.
pub proof fn lemma_sanitize_idempotent(drawing: Drawing)
    ensures
        drawing.sanitized().sanitized() == drawing.sanitized(),
        drawing.sanitized().warnings(Pass::Sanitize) == Seq::<WarningModel>::empty(),
{
}

/// Sanitizing goes one way: it never turns an inline drawing into a
/// floating one, and a drawing that holds at most one of the two forms
/// still does afterwards.
pub proof fn lemma_sanitize_one_way(drawing: Drawing)
    ensures
        drawing.anchor is None ==> drawing.sanitized().anchor is None,
        drawing.sanitized().anchor matches Some(a) ==> drawing.anchor == Some(a),
        drawing.well_formed() ==> drawing.sanitized().well_formed(),
{
}

/// Validating changes nothing, so validating twice warns of the same; and
/// once a drawing is sanitized, what validating finds is what it found in
/// the anchor that is left, if one is left.
pub proof fn lemma_validate_after_sanitize(drawing: Drawing)
    ensures
        drawing.sanitized().anchor is None ==> drawing.sanitized().warnings(Pass::Validate)
            == Seq::<WarningModel>::empty(),
        drawing.sanitized().anchor is Some ==> drawing.sanitized().warnings(Pass::Validate)
            == drawing.warnings(Pass::Validate),
{
}

} // verus!
