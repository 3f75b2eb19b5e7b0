//! Drawings embedded in runs: floating (anchored) and inline pictures, with
//! the elements they are written as and read from.
//!
//! Absent parts are left out, children are written in the order the schema
//! declares, and boolean attributes are written as `1` or `0`.

use vstd::prelude::*;
use vstd::string::StringExecFns;
use vstd::utf8::encode_utf8;
use crate::codec::{
    all_read_from, all_readable, expect_tag, bool_attribute, bool_read, bool_readable, bounded_read,
    bounded_readable, count_read, count_readable, flag_read, int_attribute, int_read,
    int_readable, optional_bool_text, optional_int_text, optional_read_from, optional_readable,
    optional_text, optional_tree, optional_word, push_all, push_optional, read_all, read_bool,
    read_count,
    read_every, read_flag, read_i32, read_int, read_optional, read_or_empty, read_required,
    read_text, read_text_or_empty, read_u32, read_word, read_word_or, required_read_from,
    required_readable, text_attribute, text_or_empty, trees, word_attribute, word_or, word_read,
    word_readable, Keyword, XmlCodec,
};
use crate::error::{DefectModel, DocxError, DrawingMLError};
use crate::lexical::{
    bool_literal, decimal, decimal_i64, decimal_nat, decimal_u64, serialize_bool_ooxml, str_eq,
};
use crate::xml::{
    element, lemma_attribute_after_attribute, lemma_attribute_after_optional_attribute,
    lemma_attribute_of_element, lemma_child_after_child, lemma_child_after_optional_child,
    optional_text_element, text_element, tree_text, XmlElement, XmlNode, XmlTree,
};
use crate::xml_write::{write_element, written, XmlSink};

verus! {

/// What a horizontal position is measured from.
#[derive(Debug, Clone, Copy, PartialEq, Eq)]
pub enum RelativeFromH {
    /// The page margin.
    Margin,
    /// The edge of the page.
    Page,
    /// The column of text.
    Column,
    /// The character the drawing is anchored to.
    Character,
    /// The left margin.
    LeftMargin,
    /// The right margin.
    RightMargin,
    /// The inside margin.
    InsideMargin,
    /// The outside margin.
    OUtsideMargin,
}

impl Keyword for RelativeFromH {
    open spec fn word(&self) -> Seq<char> {
        match self {
            RelativeFromH::Margin => "margin"@,
            RelativeFromH::Page => "page"@,
            RelativeFromH::Column => "column"@,
            RelativeFromH::Character => "character"@,
            RelativeFromH::LeftMargin => "leftMargin"@,
            RelativeFromH::RightMargin => "rightMargin"@,
            RelativeFromH::InsideMargin => "insideMargin"@,
            RelativeFromH::OUtsideMargin => "outsideMargin"@,
        }
    }

    open spec fn of_word(word: Seq<char>) -> Option<RelativeFromH> {
        if word == "margin"@ {
            Some(RelativeFromH::Margin)
        } else if word == "page"@ {
            Some(RelativeFromH::Page)
        } else if word == "column"@ {
            Some(RelativeFromH::Column)
        } else if word == "character"@ {
            Some(RelativeFromH::Character)
        } else if word == "leftMargin"@ {
            Some(RelativeFromH::LeftMargin)
        } else if word == "rightMargin"@ {
            Some(RelativeFromH::RightMargin)
        } else if word == "insideMargin"@ {
            Some(RelativeFromH::InsideMargin)
        } else if word == "outsideMargin"@ {
            Some(RelativeFromH::OUtsideMargin)
        } else {
            None
        }
    }

    fn as_str(&self) -> (word: &'static str) {
        match self {
            RelativeFromH::Margin => "margin",
            RelativeFromH::Page => "page",
            RelativeFromH::Column => "column",
            RelativeFromH::Character => "character",
            RelativeFromH::LeftMargin => "leftMargin",
            RelativeFromH::RightMargin => "rightMargin",
            RelativeFromH::InsideMargin => "insideMargin",
            RelativeFromH::OUtsideMargin => "outsideMargin",
        }
    }

    fn parse(word: &str) -> (value: Option<RelativeFromH>) {
        if str_eq(word, "margin") {
            Some(RelativeFromH::Margin)
        } else if str_eq(word, "page") {
            Some(RelativeFromH::Page)
        } else if str_eq(word, "column") {
            Some(RelativeFromH::Column)
        } else if str_eq(word, "character") {
            Some(RelativeFromH::Character)
        } else if str_eq(word, "leftMargin") {
            Some(RelativeFromH::LeftMargin)
        } else if str_eq(word, "rightMargin") {
            Some(RelativeFromH::RightMargin)
        } else if str_eq(word, "insideMargin") {
            Some(RelativeFromH::InsideMargin)
        } else if str_eq(word, "outsideMargin") {
            Some(RelativeFromH::OUtsideMargin)
        } else {
            None
        }
    }
}

/// What a vertical position is measured from.
#[derive(Debug, Clone, Copy, PartialEq, Eq)]
pub enum RelativeFromV {
    /// The page margin.
    Margin,
    /// The edge of the page.
    Page,
    /// The paragraph the drawing is anchored to.
    Paragraph,
    /// The line the drawing is anchored to.
    Line,
    /// The top margin.
    TopMargin,
    /// The bottom margin.
    BottomMargin,
    /// The inside margin.
    InsideMargin,
    /// The outside margin.
    OUtsideMargin,
}

impl Keyword for RelativeFromV {
    open spec fn word(&self) -> Seq<char> {
        match self {
            RelativeFromV::Margin => "margin"@,
            RelativeFromV::Page => "page"@,
            RelativeFromV::Paragraph => "paragraph"@,
            RelativeFromV::Line => "line"@,
            RelativeFromV::TopMargin => "topMargin"@,
            RelativeFromV::BottomMargin => "bottomMargin"@,
            RelativeFromV::InsideMargin => "insideMargin"@,
            RelativeFromV::OUtsideMargin => "outsideMargin"@,
        }
    }

    open spec fn of_word(word: Seq<char>) -> Option<RelativeFromV> {
        if word == "margin"@ {
            Some(RelativeFromV::Margin)
        } else if word == "page"@ {
            Some(RelativeFromV::Page)
        } else if word == "paragraph"@ {
            Some(RelativeFromV::Paragraph)
        } else if word == "line"@ {
            Some(RelativeFromV::Line)
        } else if word == "topMargin"@ {
            Some(RelativeFromV::TopMargin)
        } else if word == "bottomMargin"@ {
            Some(RelativeFromV::BottomMargin)
        } else if word == "insideMargin"@ {
            Some(RelativeFromV::InsideMargin)
        } else if word == "outsideMargin"@ {
            Some(RelativeFromV::OUtsideMargin)
        } else {
            None
        }
    }

    fn as_str(&self) -> (word: &'static str) {
        match self {
            RelativeFromV::Margin => "margin",
            RelativeFromV::Page => "page",
            RelativeFromV::Paragraph => "paragraph",
            RelativeFromV::Line => "line",
            RelativeFromV::TopMargin => "topMargin",
            RelativeFromV::BottomMargin => "bottomMargin",
            RelativeFromV::InsideMargin => "insideMargin",
            RelativeFromV::OUtsideMargin => "outsideMargin",
        }
    }

    fn parse(word: &str) -> (value: Option<RelativeFromV>) {
        if str_eq(word, "margin") {
            Some(RelativeFromV::Margin)
        } else if str_eq(word, "page") {
            Some(RelativeFromV::Page)
        } else if str_eq(word, "paragraph") {
            Some(RelativeFromV::Paragraph)
        } else if str_eq(word, "line") {
            Some(RelativeFromV::Line)
        } else if str_eq(word, "topMargin") {
            Some(RelativeFromV::TopMargin)
        } else if str_eq(word, "bottomMargin") {
            Some(RelativeFromV::BottomMargin)
        } else if str_eq(word, "insideMargin") {
            Some(RelativeFromV::InsideMargin)
        } else if str_eq(word, "outsideMargin") {
            Some(RelativeFromV::OUtsideMargin)
        } else {
            None
        }
    }
}

/// The sides of a drawing that text may flow along.
#[derive(Debug, Clone, Copy, PartialEq, Eq, Default)]
pub enum WrapTextType {
    /// Both sides.
    #[default]
    Both,
}

impl Keyword for WrapTextType {
    open spec fn word(&self) -> Seq<char> {
        match self {
            WrapTextType::Both => "bothSides"@,
        }
    }

    open spec fn of_word(word: Seq<char>) -> Option<WrapTextType> {
        if word == "bothSides"@ {
            Some(WrapTextType::Both)
        } else {
            None
        }
    }

    fn as_str(&self) -> (word: &'static str) {
        match self {
            WrapTextType::Both => "bothSides",
        }
    }

    fn parse(word: &str) -> (value: Option<WrapTextType>) {
        if str_eq(word, "bothSides") {
            Some(WrapTextType::Both)
        } else {
            None
        }
    }
}

/// The size of a drawing, in EMU (914,400 to the inch).
#[derive(Debug, Default, Clone)]
pub struct Extent {
    /// The width.
    pub cx: u64,
    /// The height.
    pub cy: u64,
}

impl XmlCodec for Extent {
    open spec fn tree(&self) -> XmlTree {
        element("wp:extent"@)
            .with_attribute("cx"@, decimal_nat(self.cx as nat))
            .with_attribute("cy"@, decimal_nat(self.cy as nat))
    }

    open spec fn readable(tree: XmlTree) -> bool {
        &&& tree is Element
        &&& tree.tag() == "wp:extent"@
        &&& count_readable(tree.attribute("cx"@))
        &&& count_readable(tree.attribute("cy"@))
    }

    open spec fn read_from(&self, tree: XmlTree) -> bool {
        &&& self.cx == count_read(tree.attribute("cx"@))
        &&& self.cy == count_read(tree.attribute("cy"@))
    }

    fn to_element(&self) -> (e: XmlElement) {
        let mut e = XmlElement::new("wp:extent");
        e.push_attribute("cx", decimal_u64(self.cx));
        e.push_attribute("cy", decimal_u64(self.cy));
        e
    }

    fn from_element(element: &XmlElement) -> (r: Result<Extent, DocxError>) {
        expect_tag(element, "wp:extent")?;
        let cx = read_count("wp:extent", element.attribute("cx"))?;
        let cy = read_count("wp:extent", element.attribute("cy"))?;
        Ok(Extent { cx, cy })
    }
}

impl Extent {
    /// The element that the size is written as has the name of its kind.
    pub proof fn lemma_tree_tag(self)
        ensures
            self.tree() is Element,
            self.tree().tag() == "wp:extent"@,
    {
    }
}

/// The room that effects take beyond each edge of a drawing.
#[derive(Debug, Default, Clone)]
pub struct EffectExtent {
    /// Beyond the left edge.
    pub l: i32,
    /// Beyond the top edge.
    pub t: i32,
    /// Beyond the right edge.
    pub r: i32,
    /// Beyond the bottom edge.
    pub b: i32,
}

impl XmlCodec for EffectExtent {
    open spec fn tree(&self) -> XmlTree {
        element("wp:effectExtent"@)
            .with_attribute("l"@, decimal(self.l as int))
            .with_attribute("t"@, decimal(self.t as int))
            .with_attribute("r"@, decimal(self.r as int))
            .with_attribute("b"@, decimal(self.b as int))
    }

    open spec fn readable(tree: XmlTree) -> bool {
        &&& tree is Element
        &&& tree.tag() == "wp:effectExtent"@
        &&& bounded_readable(tree.attribute("l"@), i32::MIN as int, i32::MAX as int)
        &&& bounded_readable(tree.attribute("t"@), i32::MIN as int, i32::MAX as int)
        &&& bounded_readable(tree.attribute("r"@), i32::MIN as int, i32::MAX as int)
        &&& bounded_readable(tree.attribute("b"@), i32::MIN as int, i32::MAX as int)
    }

    open spec fn read_from(&self, tree: XmlTree) -> bool {
        &&& self.l == bounded_read(tree.attribute("l"@))
        &&& self.t == bounded_read(tree.attribute("t"@))
        &&& self.r == bounded_read(tree.attribute("r"@))
        &&& self.b == bounded_read(tree.attribute("b"@))
    }

    fn to_element(&self) -> (e: XmlElement) {
        let mut e = XmlElement::new("wp:effectExtent");
        e.push_attribute("l", decimal_i64(self.l as i64));
        e.push_attribute("t", decimal_i64(self.t as i64));
        e.push_attribute("r", decimal_i64(self.r as i64));
        e.push_attribute("b", decimal_i64(self.b as i64));
        e
    }

    fn from_element(element: &XmlElement) -> (r: Result<EffectExtent, DocxError>) {
        expect_tag(element, "wp:effectExtent")?;
        let l = read_i32("wp:effectExtent", element.attribute("l"))?;
        let t = read_i32("wp:effectExtent", element.attribute("t"))?;
        let r = read_i32("wp:effectExtent", element.attribute("r"))?;
        let b = read_i32("wp:effectExtent", element.attribute("b"))?;
        Ok(EffectExtent { l, t, r, b })
    }
}

impl EffectExtent {
    /// The element that the effect extent is written as has the name of its kind.
    pub proof fn lemma_tree_tag(self)
        ensures
            self.tree() is Element,
            self.tree().tag() == "wp:effectExtent"@,
    {
    }
}

/// The width of a drawing as a share of something else.
#[derive(Debug, Clone)]
pub struct SizeRelH {
    /// What the share is taken of.
    pub relative_from: String,
    /// The share, in thousandths of a percent.
    pub pct_width: u32,
}

impl XmlCodec for SizeRelH {
    open spec fn tree(&self) -> XmlTree {
        element("wp:sizeRelH"@)
            .with_attribute("relativeFrom"@, self.relative_from@)
            .with_child(text_element("wp:pctWidth"@, decimal(self.pct_width as int)))
    }

    open spec fn readable(tree: XmlTree) -> bool {
        &&& tree is Element
        &&& tree.tag() == "wp:sizeRelH"@
        &&& bounded_readable(tree.child_text("wp:pctWidth"@), 0, u32::MAX as int)
    }

    open spec fn read_from(&self, tree: XmlTree) -> bool {
        &&& self.relative_from@ == text_or_empty(tree.attribute("relativeFrom"@))
        &&& self.pct_width == bounded_read(tree.child_text("wp:pctWidth"@))
    }

    fn to_element(&self) -> (e: XmlElement) {
        let mut e = XmlElement::new("wp:sizeRelH");
        e.push_attribute("relativeFrom", self.relative_from.clone());
        e.push_element(XmlElement::with_text("wp:pctWidth", decimal_i64(self.pct_width as i64)));
        e
    }

    fn from_element(element: &XmlElement) -> (r: Result<SizeRelH, DocxError>) {
        expect_tag(element, "wp:sizeRelH")?;
        let relative_from = read_text_or_empty(element.attribute("relativeFrom"));
        let pct_width_text = element.child_text("wp:pctWidth");
        let pct_width = read_u32("wp:sizeRelH", pct_width_text.as_ref())?;
        Ok(SizeRelH { relative_from, pct_width })
    }
}

impl SizeRelH {
    /// The element that the relative width is written as has the name of its kind.
    pub proof fn lemma_tree_tag(self)
        ensures
            self.tree() is Element,
            self.tree().tag() == "wp:sizeRelH"@,
    {
    }

    /// Whether the relative width leaves the size as it is.
    pub open spec fn is_unset(&self) -> bool {
        self.relative_from@ == "margin"@ && self.pct_width == 0
    }
}

/// The height of a drawing as a share of something else.
#[derive(Debug, Clone)]
pub struct SizeRelV {
    /// What the share is taken of.
    pub relative_from: String,
    /// The share, in thousandths of a percent.
    pub pct_height: u32,
}

impl XmlCodec for SizeRelV {
    open spec fn tree(&self) -> XmlTree {
        element("wp:sizeRelV"@)
            .with_attribute("relativeFrom"@, self.relative_from@)
            .with_child(text_element("wp:pctHeight"@, decimal(self.pct_height as int)))
    }

    open spec fn readable(tree: XmlTree) -> bool {
        &&& tree is Element
        &&& tree.tag() == "wp:sizeRelV"@
        &&& bounded_readable(tree.child_text("wp:pctHeight"@), 0, u32::MAX as int)
    }

    open spec fn read_from(&self, tree: XmlTree) -> bool {
        &&& self.relative_from@ == text_or_empty(tree.attribute("relativeFrom"@))
        &&& self.pct_height == bounded_read(tree.child_text("wp:pctHeight"@))
    }

    fn to_element(&self) -> (e: XmlElement) {
        let mut e = XmlElement::new("wp:sizeRelV");
        e.push_attribute("relativeFrom", self.relative_from.clone());
        e.push_element(XmlElement::with_text("wp:pctHeight", decimal_i64(self.pct_height as i64)));
        e
    }

    fn from_element(element: &XmlElement) -> (r: Result<SizeRelV, DocxError>) {
        expect_tag(element, "wp:sizeRelV")?;
        let relative_from = read_text_or_empty(element.attribute("relativeFrom"));
        let pct_height_text = element.child_text("wp:pctHeight");
        let pct_height = read_u32("wp:sizeRelV", pct_height_text.as_ref())?;
        Ok(SizeRelV { relative_from, pct_height })
    }
}

impl SizeRelV {
    /// The element that the relative height is written as has the name of its kind.
    pub proof fn lemma_tree_tag(self)
        ensures
            self.tree() is Element,
            self.tree().tag() == "wp:sizeRelV"@,
    {
    }

    /// Whether the relative height leaves the size as it is.
    pub open spec fn is_unset(&self) -> bool {
        self.relative_from@ == "margin"@ && self.pct_height == 0
    }
}

/// What may not be changed about a graphic frame.
#[derive(Debug, Clone)]
pub struct GraphicFrameLocks {
    /// Whether the aspect ratio is fixed.
    pub no_change_aspect: bool,
}

impl XmlCodec for GraphicFrameLocks {
    open spec fn tree(&self) -> XmlTree {
        element("a:graphicFrameLocks"@)
            .with_attribute("noChangeAspect"@, bool_literal(self.no_change_aspect))
    }

    open spec fn readable(tree: XmlTree) -> bool {
        &&& tree is Element
        &&& tree.tag() == "a:graphicFrameLocks"@
        &&& bool_readable(tree.attribute("noChangeAspect"@))
    }

    open spec fn read_from(&self, tree: XmlTree) -> bool {
        &&& self.no_change_aspect == flag_read(tree.attribute("noChangeAspect"@))
    }

    fn to_element(&self) -> (e: XmlElement) {
        let mut e = XmlElement::new("a:graphicFrameLocks");
        e.push_attribute(
            "noChangeAspect",
            String::from_str(serialize_bool_ooxml(self.no_change_aspect)),
        );
        e
    }

    fn from_element(element: &XmlElement) -> (r: Result<GraphicFrameLocks, DocxError>) {
        expect_tag(element, "a:graphicFrameLocks")?;
        let no_change_aspect = read_flag("a:graphicFrameLocks", element.attribute("noChangeAspect"))?;
        Ok(GraphicFrameLocks { no_change_aspect })
    }
}

impl GraphicFrameLocks {
    /// Each boolean attribute of the element that the locks is written as
    /// holds `1` or `0` and nothing else.
    pub proof fn lemma_boolean_attributes(self)
        ensures
            self.tree().attribute("noChangeAspect"@) == Some(bool_literal(self.no_change_aspect)),
    {
        reveal_strlit("noChangeAspect");
        let t0 = element("a:graphicFrameLocks"@);
        lemma_attribute_of_element("a:graphicFrameLocks"@, "noChangeAspect"@);
        let t1 = t0.with_attribute("noChangeAspect"@, bool_literal(self.no_change_aspect));
        lemma_attribute_after_attribute(
            t0,
            "noChangeAspect"@,
            bool_literal(self.no_change_aspect),
            "noChangeAspect"@,
        );
        assert(t1 == self.tree());
    }
}

/// The non-visual properties of a graphic frame.
#[derive(Debug, Clone)]
pub struct CnvGraphicFramePr {
    /// What may not be changed about the frame.
    pub graphic_frame_locks: GraphicFrameLocks,
}

impl XmlCodec for CnvGraphicFramePr {
    open spec fn tree(&self) -> XmlTree {
        element("wp:cNvGraphicFramePr"@).with_child(self.graphic_frame_locks.tree())
    }

    open spec fn readable(tree: XmlTree) -> bool {
        &&& tree is Element
        &&& tree.tag() == "wp:cNvGraphicFramePr"@
        &&& GraphicFrameLocks::readable(tree.child_or_empty("a:graphicFrameLocks"@))
    }

    open spec fn read_from(&self, tree: XmlTree) -> bool {
        &&& self.graphic_frame_locks.read_from(tree.child_or_empty("a:graphicFrameLocks"@))
    }

    fn to_element(&self) -> (e: XmlElement) {
        let mut e = XmlElement::new("wp:cNvGraphicFramePr");
        e.push_element(self.graphic_frame_locks.to_element());
        e
    }

    fn from_element(element: &XmlElement) -> (r: Result<CnvGraphicFramePr, DocxError>) {
        expect_tag(element, "wp:cNvGraphicFramePr")?;
        let graphic_frame_locks = read_or_empty::<GraphicFrameLocks>(element, "a:graphicFrameLocks")?;
        Ok(CnvGraphicFramePr { graphic_frame_locks })
    }
}

impl CnvGraphicFramePr {
    /// The element that the properties is written as has the name of its kind.
    pub proof fn lemma_tree_tag(self)
        ensures
            self.tree() is Element,
            self.tree().tag() == "wp:cNvGraphicFramePr"@,
    {
    }
}

/// What may not be changed about a picture.
#[derive(Debug, Clone)]
pub struct PicLocks {
    /// Whether the aspect ratio is fixed.
    pub no_change_aspect: bool,
    /// Whether the arrowheads are fixed.
    pub no_change_arrowheads: bool,
}

impl XmlCodec for PicLocks {
    open spec fn tree(&self) -> XmlTree {
        element("a:picLocks"@)
            .with_attribute("noChangeAspect"@, bool_literal(self.no_change_aspect))
            .with_attribute("noChangeArrowheads"@, bool_literal(self.no_change_arrowheads))
    }

    open spec fn readable(tree: XmlTree) -> bool {
        &&& tree is Element
        &&& tree.tag() == "a:picLocks"@
        &&& bool_readable(tree.attribute("noChangeAspect"@))
        &&& bool_readable(tree.attribute("noChangeArrowheads"@))
    }

    open spec fn read_from(&self, tree: XmlTree) -> bool {
        &&& self.no_change_aspect == flag_read(tree.attribute("noChangeAspect"@))
        &&& self.no_change_arrowheads == flag_read(tree.attribute("noChangeArrowheads"@))
    }

    fn to_element(&self) -> (e: XmlElement) {
        let mut e = XmlElement::new("a:picLocks");
        e.push_attribute(
            "noChangeAspect",
            String::from_str(serialize_bool_ooxml(self.no_change_aspect)),
        );
        e.push_attribute(
            "noChangeArrowheads",
            String::from_str(serialize_bool_ooxml(self.no_change_arrowheads)),
        );
        e
    }

    fn from_element(element: &XmlElement) -> (r: Result<PicLocks, DocxError>) {
        expect_tag(element, "a:picLocks")?;
        let no_change_aspect = read_flag("a:picLocks", element.attribute("noChangeAspect"))?;
        let no_change_arrowheads = read_flag("a:picLocks", element.attribute("noChangeArrowheads"))?;
        Ok(PicLocks { no_change_aspect, no_change_arrowheads })
    }
}

impl PicLocks {
    /// Each boolean attribute of the element that the locks is written as
    /// holds `1` or `0` and nothing else.
    pub proof fn lemma_boolean_attributes(self)
        ensures
            self.tree().attribute("noChangeAspect"@) == Some(bool_literal(self.no_change_aspect)),
            self.tree().attribute("noChangeArrowheads"@) == Some(
                bool_literal(self.no_change_arrowheads),
            ),
    {
        reveal_strlit("noChangeAspect");
        reveal_strlit("noChangeArrowheads");
        assert("noChangeArrowheads"@.len() != "noChangeAspect"@.len());
        assert("noChangeAspect"@.len() != "noChangeArrowheads"@.len());
        let t0 = element("a:picLocks"@);
        lemma_attribute_of_element("a:picLocks"@, "noChangeAspect"@);
        lemma_attribute_of_element("a:picLocks"@, "noChangeArrowheads"@);
        let t1 = t0.with_attribute("noChangeAspect"@, bool_literal(self.no_change_aspect));
        lemma_attribute_after_attribute(
            t0,
            "noChangeAspect"@,
            bool_literal(self.no_change_aspect),
            "noChangeAspect"@,
        );
        lemma_attribute_after_attribute(
            t0,
            "noChangeAspect"@,
            bool_literal(self.no_change_aspect),
            "noChangeArrowheads"@,
        );
        let t2 = t1.with_attribute("noChangeArrowheads"@, bool_literal(self.no_change_arrowheads));
        lemma_attribute_after_attribute(
            t1,
            "noChangeArrowheads"@,
            bool_literal(self.no_change_arrowheads),
            "noChangeAspect"@,
        );
        lemma_attribute_after_attribute(
            t1,
            "noChangeArrowheads"@,
            bool_literal(self.no_change_arrowheads),
            "noChangeArrowheads"@,
        );
        assert(t2 == self.tree());
    }
}

/// The non-visual properties of a picture, with its locks.
#[derive(Debug, Clone)]
pub struct CnvPicPr {
    /// What may not be changed about the picture.
    pub pic_locks: PicLocks,
}

impl XmlCodec for CnvPicPr {
    open spec fn tree(&self) -> XmlTree {
        element("pic:cNvPicPr"@).with_child(self.pic_locks.tree())
    }

    open spec fn readable(tree: XmlTree) -> bool {
        &&& tree is Element
        &&& tree.tag() == "pic:cNvPicPr"@
        &&& PicLocks::readable(tree.child_or_empty("a:picLocks"@))
    }

    open spec fn read_from(&self, tree: XmlTree) -> bool {
        &&& self.pic_locks.read_from(tree.child_or_empty("a:picLocks"@))
    }

    fn to_element(&self) -> (e: XmlElement) {
        let mut e = XmlElement::new("pic:cNvPicPr");
        e.push_element(self.pic_locks.to_element());
        e
    }

    fn from_element(element: &XmlElement) -> (r: Result<CnvPicPr, DocxError>) {
        expect_tag(element, "pic:cNvPicPr")?;
        let pic_locks = read_or_empty::<PicLocks>(element, "a:picLocks")?;
        Ok(CnvPicPr { pic_locks })
    }
}

/// Text does not flow around the drawing.
#[derive(Debug, Default, Clone)]
pub struct WrapNone {}

impl XmlCodec for WrapNone {
    open spec fn tree(&self) -> XmlTree {
        element("wp:wrapNone"@)
    }

    open spec fn readable(tree: XmlTree) -> bool {
        &&& tree is Element
        &&& tree.tag() == "wp:wrapNone"@
    }

    open spec fn read_from(&self, tree: XmlTree) -> bool {
        true
    }

    fn to_element(&self) -> (e: XmlElement) {
        let e = XmlElement::new("wp:wrapNone");
        e
    }

    fn from_element(element: &XmlElement) -> (r: Result<WrapNone, DocxError>) {
        expect_tag(element, "wp:wrapNone")?;
        Ok(WrapNone {  })
    }
}

impl WrapNone {
    /// The element that the wrapping is written as has the name of its kind.
    pub proof fn lemma_tree_tag(self)
        ensures
            self.tree() is Element,
            self.tree().tag() == "wp:wrapNone"@,
    {
    }
}

/// Text flows around the bounding box of the drawing.
#[derive(Debug, Default, Clone)]
pub struct WrapSquare {}

impl XmlCodec for WrapSquare {
    open spec fn tree(&self) -> XmlTree {
        element("wp:wrapSquare"@)
    }

    open spec fn readable(tree: XmlTree) -> bool {
        &&& tree is Element
        &&& tree.tag() == "wp:wrapSquare"@
    }

    open spec fn read_from(&self, tree: XmlTree) -> bool {
        true
    }

    fn to_element(&self) -> (e: XmlElement) {
        let e = XmlElement::new("wp:wrapSquare");
        e
    }

    fn from_element(element: &XmlElement) -> (r: Result<WrapSquare, DocxError>) {
        expect_tag(element, "wp:wrapSquare")?;
        Ok(WrapSquare {  })
    }
}

impl WrapSquare {
    /// The element that the wrapping is written as has the name of its kind.
    pub proof fn lemma_tree_tag(self)
        ensures
            self.tree() is Element,
            self.tree().tag() == "wp:wrapSquare"@,
    {
    }
}

/// Text flows through the open parts of the drawing.
#[derive(Debug, Default, Clone)]
pub struct WrapThrough {}

impl XmlCodec for WrapThrough {
    open spec fn tree(&self) -> XmlTree {
        element("wp:wrapThrough"@)
    }

    open spec fn readable(tree: XmlTree) -> bool {
        &&& tree is Element
        &&& tree.tag() == "wp:wrapThrough"@
    }

    open spec fn read_from(&self, tree: XmlTree) -> bool {
        true
    }

    fn to_element(&self) -> (e: XmlElement) {
        let e = XmlElement::new("wp:wrapThrough");
        e
    }

    fn from_element(element: &XmlElement) -> (r: Result<WrapThrough, DocxError>) {
        expect_tag(element, "wp:wrapThrough")?;
        Ok(WrapThrough {  })
    }
}

impl WrapThrough {
    /// The element that the wrapping is written as has the name of its kind.
    pub proof fn lemma_tree_tag(self)
        ensures
            self.tree() is Element,
            self.tree().tag() == "wp:wrapThrough"@,
    {
    }
}

/// Text stays above and below the drawing.
#[derive(Debug, Default, Clone)]
pub struct WrapTopAndBottom {}

impl XmlCodec for WrapTopAndBottom {
    open spec fn tree(&self) -> XmlTree {
        element("wp:wrapTopAndBottom"@)
    }

    open spec fn readable(tree: XmlTree) -> bool {
        &&& tree is Element
        &&& tree.tag() == "wp:wrapTopAndBottom"@
    }

    open spec fn read_from(&self, tree: XmlTree) -> bool {
        true
    }

    fn to_element(&self) -> (e: XmlElement) {
        let e = XmlElement::new("wp:wrapTopAndBottom");
        e
    }

    fn from_element(element: &XmlElement) -> (r: Result<WrapTopAndBottom, DocxError>) {
        expect_tag(element, "wp:wrapTopAndBottom")?;
        Ok(WrapTopAndBottom {  })
    }
}

impl WrapTopAndBottom {
    /// The element that the wrapping is written as has the name of its kind.
    pub proof fn lemma_tree_tag(self)
        ensures
            self.tree() is Element,
            self.tree().tag() == "wp:wrapTopAndBottom"@,
    {
    }
}

/// The first point of a wrapping polygon.
#[derive(Debug, Default, Clone)]
pub struct WrapPolygonStart {
    pub x: Option<isize>,
    pub y: Option<isize>,
}

impl XmlCodec for WrapPolygonStart {
    open spec fn tree(&self) -> XmlTree {
        element("wp:start"@)
            .with_optional_attribute("x"@, optional_int_text(self.x))
            .with_optional_attribute("y"@, optional_int_text(self.y))
    }

    open spec fn readable(tree: XmlTree) -> bool {
        &&& tree is Element
        &&& tree.tag() == "wp:start"@
        &&& int_readable(tree.attribute("x"@))
        &&& int_readable(tree.attribute("y"@))
    }

    open spec fn read_from(&self, tree: XmlTree) -> bool {
        &&& self.x == int_read(tree.attribute("x"@))
        &&& self.y == int_read(tree.attribute("y"@))
    }

    fn to_element(&self) -> (e: XmlElement) {
        let mut e = XmlElement::new("wp:start");
        e.push_optional_attribute("x", int_attribute(self.x));
        e.push_optional_attribute("y", int_attribute(self.y));
        e
    }

    fn from_element(element: &XmlElement) -> (r: Result<WrapPolygonStart, DocxError>) {
        expect_tag(element, "wp:start")?;
        let x = read_int("wp:start", element.attribute("x"))?;
        let y = read_int("wp:start", element.attribute("y"))?;
        Ok(WrapPolygonStart { x, y })
    }
}

/// A further point of a wrapping polygon.
#[derive(Debug, Default, Clone)]
pub struct WrapPolygonLineTo {
    pub x: Option<isize>,
    pub y: Option<isize>,
}

impl XmlCodec for WrapPolygonLineTo {
    open spec fn tree(&self) -> XmlTree {
        element("wp:lineTo"@)
            .with_optional_attribute("x"@, optional_int_text(self.x))
            .with_optional_attribute("y"@, optional_int_text(self.y))
    }

    open spec fn readable(tree: XmlTree) -> bool {
        &&& tree is Element
        &&& tree.tag() == "wp:lineTo"@
        &&& int_readable(tree.attribute("x"@))
        &&& int_readable(tree.attribute("y"@))
    }

    open spec fn read_from(&self, tree: XmlTree) -> bool {
        &&& self.x == int_read(tree.attribute("x"@))
        &&& self.y == int_read(tree.attribute("y"@))
    }

    fn to_element(&self) -> (e: XmlElement) {
        let mut e = XmlElement::new("wp:lineTo");
        e.push_optional_attribute("x", int_attribute(self.x));
        e.push_optional_attribute("y", int_attribute(self.y));
        e
    }

    fn from_element(element: &XmlElement) -> (r: Result<WrapPolygonLineTo, DocxError>) {
        expect_tag(element, "wp:lineTo")?;
        let x = read_int("wp:lineTo", element.attribute("x"))?;
        let y = read_int("wp:lineTo", element.attribute("y"))?;
        Ok(WrapPolygonLineTo { x, y })
    }
}

/// The outline that text flows along.
#[derive(Debug, Default, Clone)]
pub struct WrapPolygon {
    /// Whether the outline was edited by hand.
    pub edited: Option<bool>,
    /// The first point.
    pub start: WrapPolygonStart,
    /// The further points, in order.
    pub lineto: Vec<WrapPolygonLineTo>,
}

impl XmlCodec for WrapPolygon {
    open spec fn tree(&self) -> XmlTree {
        element("wp:wrapPolygon"@)
            .with_optional_attribute("edited"@, optional_bool_text(self.edited))
            .with_child(self.start.tree())
            .with_children(trees(self.lineto@))
    }

    open spec fn readable(tree: XmlTree) -> bool {
        &&& tree is Element
        &&& tree.tag() == "wp:wrapPolygon"@
        &&& bool_readable(tree.attribute("edited"@))
        &&& required_readable::<WrapPolygonStart>(tree.child("wp:start"@))
        &&& all_readable::<WrapPolygonLineTo>(tree.elements("wp:lineTo"@))
    }

    open spec fn read_from(&self, tree: XmlTree) -> bool {
        &&& self.edited == bool_read(tree.attribute("edited"@))
        &&& required_read_from(self.start, tree.child("wp:start"@))
        &&& all_read_from(self.lineto@, tree.elements("wp:lineTo"@))
    }

    fn to_element(&self) -> (e: XmlElement) {
        let mut e = XmlElement::new("wp:wrapPolygon");
        e.push_optional_attribute("edited", bool_attribute(self.edited));
        e.push_element(self.start.to_element());
        push_all(&mut e, &self.lineto);
        e
    }

    fn from_element(element: &XmlElement) -> (r: Result<WrapPolygon, DocxError>) {
        expect_tag(element, "wp:wrapPolygon")?;
        let edited = read_bool("wp:wrapPolygon", element.attribute("edited"))?;
        let start = read_required::<WrapPolygonStart>(element, "wp:start")?;
        let lineto = read_all::<WrapPolygonLineTo>(element, "wp:lineTo")?;
        Ok(WrapPolygon { edited, start, lineto })
    }
}

impl WrapPolygon {
    /// Each boolean attribute of the element that the polygon is written as
    /// holds `1` or `0` and nothing else.
    pub proof fn lemma_boolean_attributes(self)
        ensures
            self.tree().attribute("edited"@) == optional_bool_text(self.edited),
    {
        reveal_strlit("edited");
        let t0 = element("wp:wrapPolygon"@);
        lemma_attribute_of_element("wp:wrapPolygon"@, "edited"@);
        let t1 = t0.with_optional_attribute("edited"@, optional_bool_text(self.edited));
        lemma_attribute_after_optional_attribute(
            t0,
            "edited"@,
            optional_bool_text(self.edited),
            "edited"@,
        );
        let t2 = t1.with_child(self.start.tree());
        assert(t2.attribute("edited"@) == t1.attribute("edited"@));
        let t3 = t2.with_children(trees(self.lineto@));
        assert(t3.attribute("edited"@) == t2.attribute("edited"@));
        assert(t3 == self.tree());
    }
}

/// Text flows tightly along an outline of the drawing.
#[derive(Debug, Default, Clone)]
pub struct WrapTight {
    /// The sides that text flows along.
    pub wrap_text: WrapTextType,
    /// The outline.
    pub wrap_polygon: WrapPolygon,
}

impl XmlCodec for WrapTight {
    open spec fn tree(&self) -> XmlTree {
        element("wp:wrapTight"@)
            .with_attribute("wrapText"@, self.wrap_text.word())
            .with_child(self.wrap_polygon.tree())
    }

    open spec fn readable(tree: XmlTree) -> bool {
        &&& tree is Element
        &&& tree.tag() == "wp:wrapTight"@
        &&& word_readable::<WrapTextType>(tree.attribute("wrapText"@))
        &&& required_readable::<WrapPolygon>(tree.child("wp:wrapPolygon"@))
    }

    open spec fn read_from(&self, tree: XmlTree) -> bool {
        &&& self.wrap_text == word_or(tree.attribute("wrapText"@), WrapTextType::Both)
        &&& required_read_from(self.wrap_polygon, tree.child("wp:wrapPolygon"@))
    }

    fn to_element(&self) -> (e: XmlElement) {
        let mut e = XmlElement::new("wp:wrapTight");
        e.push_attribute("wrapText", String::from_str(self.wrap_text.as_str()));
        e.push_element(self.wrap_polygon.to_element());
        e
    }

    fn from_element(element: &XmlElement) -> (r: Result<WrapTight, DocxError>) {
        expect_tag(element, "wp:wrapTight")?;
        let wrap_text = read_word_or("wp:wrapTight", element.attribute("wrapText"), WrapTextType::Both)?;
        let wrap_polygon = read_required::<WrapPolygon>(element, "wp:wrapPolygon")?;
        Ok(WrapTight { wrap_text, wrap_polygon })
    }
}

impl WrapTight {
    /// The element that the wrapping is written as has the name of its kind.
    pub proof fn lemma_tree_tag(self)
        ensures
            self.tree() is Element,
            self.tree().tag() == "wp:wrapTight"@,
    {
    }
}

/// How text flows around a floating drawing: one of five ways.
#[derive(Debug, Clone)]
pub enum Wrap {
    /// Not at all.
    NoWrap(WrapNone),
    /// Around the bounding box.
    Square(WrapSquare),
    /// Tightly along an outline.
    Tight(WrapTight),
    /// Through the open parts.
    Through(WrapThrough),
    /// Above and below only.
    TopAndBottom(WrapTopAndBottom),
}

impl XmlCodec for Wrap {
    open spec fn tree(&self) -> XmlTree {
        match self {
            Wrap::NoWrap(v) => v.tree(),
            Wrap::Square(v) => v.tree(),
            Wrap::Tight(v) => v.tree(),
            Wrap::Through(v) => v.tree(),
            Wrap::TopAndBottom(v) => v.tree(),
        }
    }

    open spec fn readable(tree: XmlTree) -> bool {
        if tree.tag() == "wp:wrapNone"@ {
            WrapNone::readable(tree)
        } else if tree.tag() == "wp:wrapSquare"@ {
            WrapSquare::readable(tree)
        } else if tree.tag() == "wp:wrapTight"@ {
            WrapTight::readable(tree)
        } else if tree.tag() == "wp:wrapThrough"@ {
            WrapThrough::readable(tree)
        } else if tree.tag() == "wp:wrapTopAndBottom"@ {
            WrapTopAndBottom::readable(tree)
        } else {
            false
        }
    }

    open spec fn read_from(&self, tree: XmlTree) -> bool {
        if tree.tag() == "wp:wrapNone"@ {
            self matches Wrap::NoWrap(v) && v.read_from(tree)
        } else if tree.tag() == "wp:wrapSquare"@ {
            self matches Wrap::Square(v) && v.read_from(tree)
        } else if tree.tag() == "wp:wrapTight"@ {
            self matches Wrap::Tight(v) && v.read_from(tree)
        } else if tree.tag() == "wp:wrapThrough"@ {
            self matches Wrap::Through(v) && v.read_from(tree)
        } else if tree.tag() == "wp:wrapTopAndBottom"@ {
            self matches Wrap::TopAndBottom(v) && v.read_from(tree)
        } else {
            false
        }
    }

    fn to_element(&self) -> (e: XmlElement) {
        match self {
            Wrap::NoWrap(v) => v.to_element(),
            Wrap::Square(v) => v.to_element(),
            Wrap::Tight(v) => v.to_element(),
            Wrap::Through(v) => v.to_element(),
            Wrap::TopAndBottom(v) => v.to_element(),
        }
    }

    fn from_element(element: &XmlElement) -> (r: Result<Wrap, DocxError>) {
        if str_eq(element.tag.as_str(), "wp:wrapNone") {
            Ok(Wrap::NoWrap(WrapNone::from_element(element)?))
        } else if str_eq(element.tag.as_str(), "wp:wrapSquare") {
            Ok(Wrap::Square(WrapSquare::from_element(element)?))
        } else if str_eq(element.tag.as_str(), "wp:wrapTight") {
            Ok(Wrap::Tight(WrapTight::from_element(element)?))
        } else if str_eq(element.tag.as_str(), "wp:wrapThrough") {
            Ok(Wrap::Through(WrapThrough::from_element(element)?))
        } else if str_eq(element.tag.as_str(), "wp:wrapTopAndBottom") {
            Ok(Wrap::TopAndBottom(WrapTopAndBottom::from_element(element)?))
        } else {
            Err(
                DocxError::malformed(
                    "wp:wrapNone",
                    "an element of another kind stands in its place",
                ),
            )
        }
    }
}

impl Wrap {
    /// Whether a name is that of one of the elements that the wrapping can be.
    pub open spec fn names(tag: Seq<char>) -> bool {
        tag == "wp:wrapNone"@ || tag == "wp:wrapSquare"@ || tag == "wp:wrapTight"@ || tag == "wp:wrapThrough"@ || tag == "wp:wrapTopAndBottom"@
    }

    /// The first element among the first `count` trees that the wrapping can be.
    pub open spec fn choice_among(children: Seq<XmlTree>, count: nat) -> Option<XmlTree>
        decreases count,
    {
        if count == 0 || count > children.len() {
            None
        } else {
            match Wrap::choice_among(children, (count - 1) as nat) {
                Some(c) => Some(c),
                None => if children[count - 1] is Element && Wrap::names(
                    children[count - 1].tag(),
                ) {
                    Some(children[count - 1])
                } else {
                    None
                },
            }
        }
    }

    /// The first element in the content of `tree` that the wrapping can be.
    pub open spec fn choice(tree: XmlTree) -> Option<XmlTree> {
        Wrap::choice_among(tree.children(), tree.children().len())
    }

    /// Once an element is found among the first trees, it is the one found
    /// among more of them.
    pub proof fn lemma_choice_found(children: Seq<XmlTree>, count: nat, more: nat)
        requires
            count <= more <= children.len(),
            Wrap::choice_among(children, count) is Some,
        ensures
            Wrap::choice_among(children, more) == Wrap::choice_among(children, count),
        decreases more,
    {
        if more > count {
            Wrap::lemma_choice_found(children, count, (more - 1) as nat);
        }
    }

    /// The first element in the content that the wrapping can be.
    pub fn find(element: &XmlElement) -> (found: Option<&XmlElement>)
        ensures
            match found {
                Some(c) => Wrap::choice(element@) == Some(c@),
                None => Wrap::choice(element@) is None,
            },
    {
        let ghost kids = element@.children();
        let mut i: usize = 0;
        while i < element.children.len()
            invariant
                i <= element.children@.len(),
                kids == element@.children(),
                kids.len() == element.children@.len(),
                Wrap::choice_among(kids, i as nat) is None,
            decreases element.children@.len() - i,
        {
            assert(kids[i as int] == element.children@[i as int]@);
            match &element.children[i] {
                XmlNode::Element(child) => {
                    if str_eq(child.tag.as_str(), "wp:wrapNone") || str_eq(child.tag.as_str(), "wp:wrapSquare") || str_eq(child.tag.as_str(), "wp:wrapTight") || str_eq(child.tag.as_str(), "wp:wrapThrough") || str_eq(child.tag.as_str(), "wp:wrapTopAndBottom") {
                        proof {
                            Wrap::lemma_choice_found(kids, (i + 1) as nat, kids.len());
                        }
                        return Some(child);
                    }
                },
                XmlNode::Text(_) => {},
            }
            i = i + 1;
        }
        None
    }

    /// The element that the wrapping is written as has one of the names of its
    /// kind.
    pub proof fn lemma_tree_tag(self)
        ensures
            self.tree() is Element,
            Wrap::names(self.tree().tag()),
    {
        match self {
            Wrap::NoWrap(v) => {
                v.lemma_tree_tag();
            },
            Wrap::Square(v) => {
                v.lemma_tree_tag();
            },
            Wrap::Tight(v) => {
                v.lemma_tree_tag();
            },
            Wrap::Through(v) => {
                v.lemma_tree_tag();
            },
            Wrap::TopAndBottom(v) => {
                v.lemma_tree_tag();
            },
        }
    }
}

/// Where a floating drawing stands horizontally: relative to something,
/// either by an alignment keyword or by a literal offset.
#[derive(Debug, Default, Clone)]
pub struct PositionHorizontal {
    /// What the position is measured from.
    pub relative_from: Option<RelativeFromH>,
    /// The alignment keyword.
    pub align: Option<String>,
    /// The literal offset, in EMU.
    pub pos_offset: Option<isize>,
}

impl XmlCodec for PositionHorizontal {
    open spec fn tree(&self) -> XmlTree {
        element("wp:positionH"@)
            .with_optional_attribute("relativeFrom"@, optional_word(self.relative_from))
            .with_optional_child(optional_text_element("wp:align"@, optional_text(self.align)))
            .with_optional_child(
                optional_text_element("wp:posOffset"@, optional_int_text(self.pos_offset)),
            )
    }

    open spec fn readable(tree: XmlTree) -> bool {
        &&& tree is Element
        &&& tree.tag() == "wp:positionH"@
        &&& word_readable::<RelativeFromH>(tree.attribute("relativeFrom"@))
        &&& int_readable(tree.child_text("wp:posOffset"@))
    }

    open spec fn read_from(&self, tree: XmlTree) -> bool {
        &&& self.relative_from == word_read::<RelativeFromH>(tree.attribute("relativeFrom"@))
        &&& optional_text(self.align) == tree.child_text("wp:align"@)
        &&& self.pos_offset == int_read(tree.child_text("wp:posOffset"@))
    }

    fn to_element(&self) -> (e: XmlElement) {
        let mut e = XmlElement::new("wp:positionH");
        e.push_optional_attribute("relativeFrom", word_attribute(self.relative_from));
        e.push_optional_text_element("wp:align", text_attribute(&self.align));
        e.push_optional_text_element("wp:posOffset", int_attribute(self.pos_offset));
        e
    }

    fn from_element(element: &XmlElement) -> (r: Result<PositionHorizontal, DocxError>) {
        expect_tag(element, "wp:positionH")?;
        let relative_from = read_word::<RelativeFromH>("wp:positionH", element.attribute("relativeFrom"))?;
        let align = element.child_text("wp:align");
        let pos_offset_text = element.child_text("wp:posOffset");
        let pos_offset = read_int("wp:positionH", pos_offset_text.as_ref())?;
        Ok(PositionHorizontal { relative_from, align, pos_offset })
    }
}

impl PositionHorizontal {
    /// The element that the position is written as has the name of its kind.
    pub proof fn lemma_tree_tag(self)
        ensures
            self.tree() is Element,
            self.tree().tag() == "wp:positionH"@,
    {
    }

    /// Whether exactly one of alignment and offset is set.
    pub open spec fn is_valid(&self) -> bool {
        (self.align is Some) != (self.pos_offset is Some)
    }

    /// A valid position is written with exactly one child, the alignment or
    /// the offset.
    pub proof fn lemma_one_child(self)
        requires
            self.is_valid(),
        ensures
            self.tree().children().len() == 1,
            self.align matches Some(a) ==> self.tree().children()[0] == text_element(
                "wp:align"@,
                a@,
            ),
            self.pos_offset matches Some(o) ==> self.tree().children()[0] == text_element(
                "wp:posOffset"@,
                decimal(o as int),
            ),
    {
    }

    /// What is wrong with the position, if anything: with neither an
    /// alignment nor an offset, an element is missing; with both, the
    /// positioning is contradictory.
    pub open spec fn defect(&self) -> Option<DefectModel> {
        match (self.align, self.pos_offset) {
            (None, None) => Some(
                DefectModel::MissingRequiredElement(
                    "positionH requires either align or posOffset"@,
                ),
            ),
            (Some(_), Some(_)) => Some(
                DefectModel::InvalidPositioning("positionH cannot have both align and posOffset"@),
            ),
            _ => None,
        }
    }

    /// Checks that the position carries exactly one of an alignment and an
    /// offset, and reports what is wrong where it does not.
    pub fn validate(&self) -> (r: Result<(), DrawingMLError>)
        ensures
            r is Ok <==> self.is_valid(),
            match self.defect() {
                Some(defect) => r matches Err(e) && e@ == defect,
                None => r is Ok,
            },
    {
        match (&self.align, &self.pos_offset) {
            (None, None) => Err(
                DrawingMLError::MissingRequiredElement(
                    String::from_str("positionH requires either align or posOffset"),
                ),
            ),
            (Some(_), Some(_)) => Err(
                DrawingMLError::InvalidPositioning(
                    String::from_str("positionH cannot have both align and posOffset"),
                ),
            ),
            _ => Ok(()),
        }
    }
}

/// Where a floating drawing stands vertically: relative to something,
/// either by an alignment keyword or by a literal offset.
#[derive(Debug, Default, Clone)]
pub struct PositionVertical {
    /// What the position is measured from.
    pub relative_from: Option<RelativeFromV>,
    /// The alignment keyword.
    pub align: Option<String>,
    /// The literal offset, in EMU.
    pub pos_offset: Option<isize>,
}

impl XmlCodec for PositionVertical {
    open spec fn tree(&self) -> XmlTree {
        element("wp:positionV"@)
            .with_optional_attribute("relativeFrom"@, optional_word(self.relative_from))
            .with_optional_child(optional_text_element("wp:align"@, optional_text(self.align)))
            .with_optional_child(
                optional_text_element("wp:posOffset"@, optional_int_text(self.pos_offset)),
            )
    }

    open spec fn readable(tree: XmlTree) -> bool {
        &&& tree is Element
        &&& tree.tag() == "wp:positionV"@
        &&& word_readable::<RelativeFromV>(tree.attribute("relativeFrom"@))
        &&& int_readable(tree.child_text("wp:posOffset"@))
    }

    open spec fn read_from(&self, tree: XmlTree) -> bool {
        &&& self.relative_from == word_read::<RelativeFromV>(tree.attribute("relativeFrom"@))
        &&& optional_text(self.align) == tree.child_text("wp:align"@)
        &&& self.pos_offset == int_read(tree.child_text("wp:posOffset"@))
    }

    fn to_element(&self) -> (e: XmlElement) {
        let mut e = XmlElement::new("wp:positionV");
        e.push_optional_attribute("relativeFrom", word_attribute(self.relative_from));
        e.push_optional_text_element("wp:align", text_attribute(&self.align));
        e.push_optional_text_element("wp:posOffset", int_attribute(self.pos_offset));
        e
    }

    fn from_element(element: &XmlElement) -> (r: Result<PositionVertical, DocxError>) {
        expect_tag(element, "wp:positionV")?;
        let relative_from = read_word::<RelativeFromV>("wp:positionV", element.attribute("relativeFrom"))?;
        let align = element.child_text("wp:align");
        let pos_offset_text = element.child_text("wp:posOffset");
        let pos_offset = read_int("wp:positionV", pos_offset_text.as_ref())?;
        Ok(PositionVertical { relative_from, align, pos_offset })
    }
}

impl PositionVertical {
    /// The element that the position is written as has the name of its kind.
    pub proof fn lemma_tree_tag(self)
        ensures
            self.tree() is Element,
            self.tree().tag() == "wp:positionV"@,
    {
    }

    /// Whether exactly one of alignment and offset is set.
    pub open spec fn is_valid(&self) -> bool {
        (self.align is Some) != (self.pos_offset is Some)
    }

    /// A valid position is written with exactly one child, the alignment or
    /// the offset.
    pub proof fn lemma_one_child(self)
        requires
            self.is_valid(),
        ensures
            self.tree().children().len() == 1,
            self.align matches Some(a) ==> self.tree().children()[0] == text_element(
                "wp:align"@,
                a@,
            ),
            self.pos_offset matches Some(o) ==> self.tree().children()[0] == text_element(
                "wp:posOffset"@,
                decimal(o as int),
            ),
    {
    }

    /// What is wrong with the position, if anything: with neither an
    /// alignment nor an offset, an element is missing; with both, the
    /// positioning is contradictory.
    pub open spec fn defect(&self) -> Option<DefectModel> {
        match (self.align, self.pos_offset) {
            (None, None) => Some(
                DefectModel::MissingRequiredElement(
                    "positionV requires either align or posOffset"@,
                ),
            ),
            (Some(_), Some(_)) => Some(
                DefectModel::InvalidPositioning("positionV cannot have both align and posOffset"@),
            ),
            _ => None,
        }
    }

    /// Checks that the position carries exactly one of an alignment and an
    /// offset, and reports what is wrong where it does not.
    pub fn validate(&self) -> (r: Result<(), DrawingMLError>)
        ensures
            r is Ok <==> self.is_valid(),
            match self.defect() {
                Some(defect) => r matches Err(e) && e@ == defect,
                None => r is Ok,
            },
    {
        match (&self.align, &self.pos_offset) {
            (None, None) => Err(
                DrawingMLError::MissingRequiredElement(
                    String::from_str("positionV requires either align or posOffset"),
                ),
            ),
            (Some(_), Some(_)) => Err(
                DrawingMLError::InvalidPositioning(
                    String::from_str("positionV cannot have both align and posOffset"),
                ),
            ),
            _ => Ok(()),
        }
    }
}

/// The simple position of a floating drawing.
#[derive(Debug, Default, Clone)]
pub struct SimplePos {
    pub x: Option<isize>,
    pub y: Option<isize>,
}

impl XmlCodec for SimplePos {
    open spec fn tree(&self) -> XmlTree {
        element("wp:simplePos"@)
            .with_optional_attribute("x"@, optional_int_text(self.x))
            .with_optional_attribute("y"@, optional_int_text(self.y))
    }

    open spec fn readable(tree: XmlTree) -> bool {
        &&& tree is Element
        &&& tree.tag() == "wp:simplePos"@
        &&& int_readable(tree.attribute("x"@))
        &&& int_readable(tree.attribute("y"@))
    }

    open spec fn read_from(&self, tree: XmlTree) -> bool {
        &&& self.x == int_read(tree.attribute("x"@))
        &&& self.y == int_read(tree.attribute("y"@))
    }

    fn to_element(&self) -> (e: XmlElement) {
        let mut e = XmlElement::new("wp:simplePos");
        e.push_optional_attribute("x", int_attribute(self.x));
        e.push_optional_attribute("y", int_attribute(self.y));
        e
    }

    fn from_element(element: &XmlElement) -> (r: Result<SimplePos, DocxError>) {
        expect_tag(element, "wp:simplePos")?;
        let x = read_int("wp:simplePos", element.attribute("x"))?;
        let y = read_int("wp:simplePos", element.attribute("y"))?;
        Ok(SimplePos { x, y })
    }
}

impl SimplePos {
    /// The element that the point is written as has the name of its kind.
    pub proof fn lemma_tree_tag(self)
        ensures
            self.tree() is Element,
            self.tree().tag() == "wp:simplePos"@,
    {
    }
}

/// The identity of a drawing within the document.
#[derive(Debug, Default, Clone)]
pub struct DocPr {
    /// The number of the drawing.
    pub id: Option<isize>,
    /// The name shown for the drawing.
    pub name: Option<String>,
    /// A description of the drawing.
    pub descr: Option<String>,
}

impl XmlCodec for DocPr {
    open spec fn tree(&self) -> XmlTree {
        element("wp:docPr"@)
            .with_optional_attribute("id"@, optional_int_text(self.id))
            .with_optional_attribute("name"@, optional_text(self.name))
            .with_optional_attribute("descr"@, optional_text(self.descr))
    }

    open spec fn readable(tree: XmlTree) -> bool {
        &&& tree is Element
        &&& tree.tag() == "wp:docPr"@
        &&& int_readable(tree.attribute("id"@))
    }

    open spec fn read_from(&self, tree: XmlTree) -> bool {
        &&& self.id == int_read(tree.attribute("id"@))
        &&& optional_text(self.name) == tree.attribute("name"@)
        &&& optional_text(self.descr) == tree.attribute("descr"@)
    }

    fn to_element(&self) -> (e: XmlElement) {
        let mut e = XmlElement::new("wp:docPr");
        e.push_optional_attribute("id", int_attribute(self.id));
        e.push_optional_attribute("name", text_attribute(&self.name));
        e.push_optional_attribute("descr", text_attribute(&self.descr));
        e
    }

    fn from_element(element: &XmlElement) -> (r: Result<DocPr, DocxError>) {
        expect_tag(element, "wp:docPr")?;
        let id = read_int("wp:docPr", element.attribute("id"))?;
        let name = read_text(element.attribute("name"));
        let descr = read_text(element.attribute("descr"));
        Ok(DocPr { id, name, descr })
    }
}

impl DocPr {
    /// The element that the identity is written as has the name of its kind.
    pub proof fn lemma_tree_tag(self)
        ensures
            self.tree() is Element,
            self.tree().tag() == "wp:docPr"@,
    {
    }
}

/// The identity of a picture.
#[derive(Debug, Default, Clone)]
pub struct CNvPr {
    /// The number of the picture.
    pub id: Option<isize>,
    /// The name shown for the picture.
    pub name: Option<String>,
    /// A description of the picture.
    pub descr: Option<String>,
}

impl XmlCodec for CNvPr {
    open spec fn tree(&self) -> XmlTree {
        element("pic:cNvPr"@)
            .with_optional_attribute("id"@, optional_int_text(self.id))
            .with_optional_attribute("name"@, optional_text(self.name))
            .with_optional_attribute("descr"@, optional_text(self.descr))
    }

    open spec fn readable(tree: XmlTree) -> bool {
        &&& tree is Element
        &&& tree.tag() == "pic:cNvPr"@
        &&& int_readable(tree.attribute("id"@))
    }

    open spec fn read_from(&self, tree: XmlTree) -> bool {
        &&& self.id == int_read(tree.attribute("id"@))
        &&& optional_text(self.name) == tree.attribute("name"@)
        &&& optional_text(self.descr) == tree.attribute("descr"@)
    }

    fn to_element(&self) -> (e: XmlElement) {
        let mut e = XmlElement::new("pic:cNvPr");
        e.push_optional_attribute("id", int_attribute(self.id));
        e.push_optional_attribute("name", text_attribute(&self.name));
        e.push_optional_attribute("descr", text_attribute(&self.descr));
        e
    }

    fn from_element(element: &XmlElement) -> (r: Result<CNvPr, DocxError>) {
        expect_tag(element, "pic:cNvPr")?;
        let id = read_int("pic:cNvPr", element.attribute("id"))?;
        let name = read_text(element.attribute("name"));
        let descr = read_text(element.attribute("descr"));
        Ok(CNvPr { id, name, descr })
    }
}

/// The non-visual properties of a picture, none of which are kept.
#[derive(Debug, Default, Clone)]
pub struct CNvPicPr {}

impl XmlCodec for CNvPicPr {
    open spec fn tree(&self) -> XmlTree {
        element("pic:cNvPicPr"@)
    }

    open spec fn readable(tree: XmlTree) -> bool {
        &&& tree is Element
        &&& tree.tag() == "pic:cNvPicPr"@
    }

    open spec fn read_from(&self, tree: XmlTree) -> bool {
        true
    }

    fn to_element(&self) -> (e: XmlElement) {
        let e = XmlElement::new("pic:cNvPicPr");
        e
    }

    fn from_element(element: &XmlElement) -> (r: Result<CNvPicPr, DocxError>) {
        expect_tag(element, "pic:cNvPicPr")?;
        Ok(CNvPicPr {  })
    }
}

/// The non-visual part of a picture.
#[derive(Debug, Default, Clone)]
pub struct NvPicPr {
    /// The identity of the picture.
    pub c_nv_pr: Option<CNvPr>,
    /// The non-visual properties of the picture.
    pub c_nv_pic_pr: Option<CNvPicPr>,
}

impl XmlCodec for NvPicPr {
    open spec fn tree(&self) -> XmlTree {
        element("pic:nvPicPr"@)
            .with_optional_child(optional_tree(self.c_nv_pr))
            .with_optional_child(optional_tree(self.c_nv_pic_pr))
    }

    open spec fn readable(tree: XmlTree) -> bool {
        &&& tree is Element
        &&& tree.tag() == "pic:nvPicPr"@
        &&& optional_readable::<CNvPr>(tree.child("pic:cNvPr"@))
        &&& optional_readable::<CNvPicPr>(tree.child("pic:cNvPicPr"@))
    }

    open spec fn read_from(&self, tree: XmlTree) -> bool {
        &&& optional_read_from(self.c_nv_pr, tree.child("pic:cNvPr"@))
        &&& optional_read_from(self.c_nv_pic_pr, tree.child("pic:cNvPicPr"@))
    }

    fn to_element(&self) -> (e: XmlElement) {
        let mut e = XmlElement::new("pic:nvPicPr");
        push_optional(&mut e, &self.c_nv_pr);
        push_optional(&mut e, &self.c_nv_pic_pr);
        e
    }

    fn from_element(element: &XmlElement) -> (r: Result<NvPicPr, DocxError>) {
        expect_tag(element, "pic:nvPicPr")?;
        let c_nv_pr = read_optional::<CNvPr>(element, "pic:cNvPr")?;
        let c_nv_pic_pr = read_optional::<CNvPicPr>(element, "pic:cNvPicPr")?;
        Ok(NvPicPr { c_nv_pr, c_nv_pic_pr })
    }
}

/// The image of a picture, named by the relationship that leads to it.
#[derive(Debug, Default, Clone)]
pub struct Blip {
    /// The id of the relationship to the image part.
    pub embed: String,
    /// How the image is compressed.
    pub cstate: Option<String>,
}

impl XmlCodec for Blip {
    open spec fn tree(&self) -> XmlTree {
        element("a:blip"@)
            .with_attribute("r:embed"@, self.embed@)
            .with_optional_attribute("cstate"@, optional_text(self.cstate))
    }

    open spec fn readable(tree: XmlTree) -> bool {
        &&& tree is Element
        &&& tree.tag() == "a:blip"@
    }

    open spec fn read_from(&self, tree: XmlTree) -> bool {
        &&& self.embed@ == text_or_empty(tree.attribute("r:embed"@))
        &&& optional_text(self.cstate) == tree.attribute("cstate"@)
    }

    fn to_element(&self) -> (e: XmlElement) {
        let mut e = XmlElement::new("a:blip");
        e.push_attribute("r:embed", self.embed.clone());
        e.push_optional_attribute("cstate", text_attribute(&self.cstate));
        e
    }

    fn from_element(element: &XmlElement) -> (r: Result<Blip, DocxError>) {
        expect_tag(element, "a:blip")?;
        let embed = read_text_or_empty(element.attribute("r:embed"));
        let cstate = read_text(element.attribute("cstate"));
        Ok(Blip { embed, cstate })
    }
}

/// The image fills the whole rectangle.
#[derive(Debug, Default, Clone)]
pub struct FillRect {}

impl XmlCodec for FillRect {
    open spec fn tree(&self) -> XmlTree {
        element("a:fillRect"@)
    }

    open spec fn readable(tree: XmlTree) -> bool {
        &&& tree is Element
        &&& tree.tag() == "a:fillRect"@
    }

    open spec fn read_from(&self, tree: XmlTree) -> bool {
        true
    }

    fn to_element(&self) -> (e: XmlElement) {
        let e = XmlElement::new("a:fillRect");
        e
    }

    fn from_element(element: &XmlElement) -> (r: Result<FillRect, DocxError>) {
        expect_tag(element, "a:fillRect")?;
        Ok(FillRect {  })
    }
}

/// The image is stretched to fill.
#[derive(Debug, Default, Clone)]
pub struct Stretch {
    /// The rectangle that is filled.
    pub fill_rect: Option<FillRect>,
}

impl XmlCodec for Stretch {
    open spec fn tree(&self) -> XmlTree {
        element("a:stretch"@).with_optional_child(optional_tree(self.fill_rect))
    }

    open spec fn readable(tree: XmlTree) -> bool {
        &&& tree is Element
        &&& tree.tag() == "a:stretch"@
        &&& optional_readable::<FillRect>(tree.child("a:fillRect"@))
    }

    open spec fn read_from(&self, tree: XmlTree) -> bool {
        &&& optional_read_from(self.fill_rect, tree.child("a:fillRect"@))
    }

    fn to_element(&self) -> (e: XmlElement) {
        let mut e = XmlElement::new("a:stretch");
        push_optional(&mut e, &self.fill_rect);
        e
    }

    fn from_element(element: &XmlElement) -> (r: Result<Stretch, DocxError>) {
        expect_tag(element, "a:stretch")?;
        let fill_rect = read_optional::<FillRect>(element, "a:fillRect")?;
        Ok(Stretch { fill_rect })
    }
}

/// What a picture is filled with.
#[derive(Debug, Default, Clone)]
pub struct BlipFill {
    /// The image.
    pub blip: Blip,
    /// How the image is stretched.
    pub stretch: Option<Stretch>,
}

impl XmlCodec for BlipFill {
    open spec fn tree(&self) -> XmlTree {
        element("pic:blipFill"@)
            .with_child(self.blip.tree())
            .with_optional_child(optional_tree(self.stretch))
    }

    open spec fn readable(tree: XmlTree) -> bool {
        &&& tree is Element
        &&& tree.tag() == "pic:blipFill"@
        &&& Blip::readable(tree.child_or_empty("a:blip"@))
        &&& optional_readable::<Stretch>(tree.child("a:stretch"@))
    }

    open spec fn read_from(&self, tree: XmlTree) -> bool {
        &&& self.blip.read_from(tree.child_or_empty("a:blip"@))
        &&& optional_read_from(self.stretch, tree.child("a:stretch"@))
    }

    fn to_element(&self) -> (e: XmlElement) {
        let mut e = XmlElement::new("pic:blipFill");
        e.push_element(self.blip.to_element());
        push_optional(&mut e, &self.stretch);
        e
    }

    fn from_element(element: &XmlElement) -> (r: Result<BlipFill, DocxError>) {
        expect_tag(element, "pic:blipFill")?;
        let blip = read_or_empty::<Blip>(element, "a:blip")?;
        let stretch = read_optional::<Stretch>(element, "a:stretch")?;
        Ok(BlipFill { blip, stretch })
    }
}

/// The size of a shape.
#[derive(Debug, Default, Clone)]
pub struct Ext {
    /// The width.
    pub cx: Option<isize>,
    /// The height.
    pub cy: Option<isize>,
}

impl XmlCodec for Ext {
    open spec fn tree(&self) -> XmlTree {
        element("a:ext"@)
            .with_optional_attribute("cx"@, optional_int_text(self.cx))
            .with_optional_attribute("cy"@, optional_int_text(self.cy))
    }

    open spec fn readable(tree: XmlTree) -> bool {
        &&& tree is Element
        &&& tree.tag() == "a:ext"@
        &&& int_readable(tree.attribute("cx"@))
        &&& int_readable(tree.attribute("cy"@))
    }

    open spec fn read_from(&self, tree: XmlTree) -> bool {
        &&& self.cx == int_read(tree.attribute("cx"@))
        &&& self.cy == int_read(tree.attribute("cy"@))
    }

    fn to_element(&self) -> (e: XmlElement) {
        let mut e = XmlElement::new("a:ext");
        e.push_optional_attribute("cx", int_attribute(self.cx));
        e.push_optional_attribute("cy", int_attribute(self.cy));
        e
    }

    fn from_element(element: &XmlElement) -> (r: Result<Ext, DocxError>) {
        expect_tag(element, "a:ext")?;
        let cx = read_int("a:ext", element.attribute("cx"))?;
        let cy = read_int("a:ext", element.attribute("cy"))?;
        Ok(Ext { cx, cy })
    }
}

/// The offset of a shape.
#[derive(Debug, Default, Clone)]
pub struct Offset {
    pub x: Option<isize>,
    pub y: Option<isize>,
}

impl XmlCodec for Offset {
    open spec fn tree(&self) -> XmlTree {
        element("a:off"@)
            .with_optional_attribute("x"@, optional_int_text(self.x))
            .with_optional_attribute("y"@, optional_int_text(self.y))
    }

    open spec fn readable(tree: XmlTree) -> bool {
        &&& tree is Element
        &&& tree.tag() == "a:off"@
        &&& int_readable(tree.attribute("x"@))
        &&& int_readable(tree.attribute("y"@))
    }

    open spec fn read_from(&self, tree: XmlTree) -> bool {
        &&& self.x == int_read(tree.attribute("x"@))
        &&& self.y == int_read(tree.attribute("y"@))
    }

    fn to_element(&self) -> (e: XmlElement) {
        let mut e = XmlElement::new("a:off");
        e.push_optional_attribute("x", int_attribute(self.x));
        e.push_optional_attribute("y", int_attribute(self.y));
        e
    }

    fn from_element(element: &XmlElement) -> (r: Result<Offset, DocxError>) {
        expect_tag(element, "a:off")?;
        let x = read_int("a:off", element.attribute("x"))?;
        let y = read_int("a:off", element.attribute("y"))?;
        Ok(Offset { x, y })
    }
}

/// Where a shape stands and how large it is.
#[derive(Debug, Default, Clone)]
pub struct Xfrm {
    /// The offset.
    pub offset: Option<Offset>,
    /// The size.
    pub ext: Option<Ext>,
}

impl XmlCodec for Xfrm {
    open spec fn tree(&self) -> XmlTree {
        element("a:xfrm"@)
            .with_optional_child(optional_tree(self.offset))
            .with_optional_child(optional_tree(self.ext))
    }

    open spec fn readable(tree: XmlTree) -> bool {
        &&& tree is Element
        &&& tree.tag() == "a:xfrm"@
        &&& optional_readable::<Offset>(tree.child("a:off"@))
        &&& optional_readable::<Ext>(tree.child("a:ext"@))
    }

    open spec fn read_from(&self, tree: XmlTree) -> bool {
        &&& optional_read_from(self.offset, tree.child("a:off"@))
        &&& optional_read_from(self.ext, tree.child("a:ext"@))
    }

    fn to_element(&self) -> (e: XmlElement) {
        let mut e = XmlElement::new("a:xfrm");
        push_optional(&mut e, &self.offset);
        push_optional(&mut e, &self.ext);
        e
    }

    fn from_element(element: &XmlElement) -> (r: Result<Xfrm, DocxError>) {
        expect_tag(element, "a:xfrm")?;
        let offset = read_optional::<Offset>(element, "a:off")?;
        let ext = read_optional::<Ext>(element, "a:ext")?;
        Ok(Xfrm { offset, ext })
    }
}

/// The adjust values of a preset geometry, none of which are kept.
#[derive(Debug, Default, Clone)]
pub struct AvList {}

impl XmlCodec for AvList {
    open spec fn tree(&self) -> XmlTree {
        element("a:avLst"@)
    }

    open spec fn readable(tree: XmlTree) -> bool {
        &&& tree is Element
        &&& tree.tag() == "a:avLst"@
    }

    open spec fn read_from(&self, tree: XmlTree) -> bool {
        true
    }

    fn to_element(&self) -> (e: XmlElement) {
        let e = XmlElement::new("a:avLst");
        e
    }

    fn from_element(element: &XmlElement) -> (r: Result<AvList, DocxError>) {
        expect_tag(element, "a:avLst")?;
        Ok(AvList {  })
    }
}

/// A preset geometry.
#[derive(Debug, Default, Clone)]
pub struct PrstGeom {
    /// The name of the preset.
    pub prst: Option<String>,
    /// The adjust values.
    pub av_lst: Option<AvList>,
}

impl XmlCodec for PrstGeom {
    open spec fn tree(&self) -> XmlTree {
        element("a:prstGeom"@)
            .with_optional_attribute("prst"@, optional_text(self.prst))
            .with_optional_child(optional_tree(self.av_lst))
    }

    open spec fn readable(tree: XmlTree) -> bool {
        &&& tree is Element
        &&& tree.tag() == "a:prstGeom"@
        &&& optional_readable::<AvList>(tree.child("a:avLst"@))
    }

    open spec fn read_from(&self, tree: XmlTree) -> bool {
        &&& optional_text(self.prst) == tree.attribute("prst"@)
        &&& optional_read_from(self.av_lst, tree.child("a:avLst"@))
    }

    fn to_element(&self) -> (e: XmlElement) {
        let mut e = XmlElement::new("a:prstGeom");
        e.push_optional_attribute("prst", text_attribute(&self.prst));
        push_optional(&mut e, &self.av_lst);
        e
    }

    fn from_element(element: &XmlElement) -> (r: Result<PrstGeom, DocxError>) {
        expect_tag(element, "a:prstGeom")?;
        let prst = read_text(element.attribute("prst"));
        let av_lst = read_optional::<AvList>(element, "a:avLst")?;
        Ok(PrstGeom { prst, av_lst })
    }
}

/// The shape properties of a picture.
#[derive(Debug, Default, Clone)]
pub struct SpPr {
    /// The transform.
    pub xfrm: Option<Xfrm>,
    /// The geometry.
    pub prst_geom: Option<PrstGeom>,
}

impl XmlCodec for SpPr {
    open spec fn tree(&self) -> XmlTree {
        element("pic:spPr"@)
            .with_optional_child(optional_tree(self.xfrm))
            .with_optional_child(optional_tree(self.prst_geom))
    }

    open spec fn readable(tree: XmlTree) -> bool {
        &&& tree is Element
        &&& tree.tag() == "pic:spPr"@
        &&& optional_readable::<Xfrm>(tree.child("a:xfrm"@))
        &&& optional_readable::<PrstGeom>(tree.child("a:prstGeom"@))
    }

    open spec fn read_from(&self, tree: XmlTree) -> bool {
        &&& optional_read_from(self.xfrm, tree.child("a:xfrm"@))
        &&& optional_read_from(self.prst_geom, tree.child("a:prstGeom"@))
    }

    fn to_element(&self) -> (e: XmlElement) {
        let mut e = XmlElement::new("pic:spPr");
        push_optional(&mut e, &self.xfrm);
        push_optional(&mut e, &self.prst_geom);
        e
    }

    fn from_element(element: &XmlElement) -> (r: Result<SpPr, DocxError>) {
        expect_tag(element, "pic:spPr")?;
        let xfrm = read_optional::<Xfrm>(element, "a:xfrm")?;
        let prst_geom = read_optional::<PrstGeom>(element, "a:prstGeom")?;
        Ok(SpPr { xfrm, prst_geom })
    }
}

/// A picture.
#[derive(Debug, Default, Clone)]
pub struct Picture {
    /// The namespace of picture elements.
    pub a: String,
    /// The non-visual part.
    pub nv_pic_pr: NvPicPr,
    /// What the picture is filled with.
    pub fill: BlipFill,
    /// The shape properties.
    pub sp_pr: SpPr,
}

impl XmlCodec for Picture {
    open spec fn tree(&self) -> XmlTree {
        element("pic:pic"@)
            .with_attribute("xmlns:pic"@, self.a@)
            .with_child(self.nv_pic_pr.tree())
            .with_child(self.fill.tree())
            .with_child(self.sp_pr.tree())
    }

    open spec fn readable(tree: XmlTree) -> bool {
        &&& tree is Element
        &&& tree.tag() == "pic:pic"@
        &&& required_readable::<NvPicPr>(tree.child("pic:nvPicPr"@))
        &&& required_readable::<BlipFill>(tree.child("pic:blipFill"@))
        &&& required_readable::<SpPr>(tree.child("pic:spPr"@))
    }

    open spec fn read_from(&self, tree: XmlTree) -> bool {
        &&& self.a@ == text_or_empty(tree.attribute("xmlns:pic"@))
        &&& required_read_from(self.nv_pic_pr, tree.child("pic:nvPicPr"@))
        &&& required_read_from(self.fill, tree.child("pic:blipFill"@))
        &&& required_read_from(self.sp_pr, tree.child("pic:spPr"@))
    }

    fn to_element(&self) -> (e: XmlElement) {
        let mut e = XmlElement::new("pic:pic");
        e.push_attribute("xmlns:pic", self.a.clone());
        e.push_element(self.nv_pic_pr.to_element());
        e.push_element(self.fill.to_element());
        e.push_element(self.sp_pr.to_element());
        e
    }

    fn from_element(element: &XmlElement) -> (r: Result<Picture, DocxError>) {
        expect_tag(element, "pic:pic")?;
        let a = read_text_or_empty(element.attribute("xmlns:pic"));
        let nv_pic_pr = read_required::<NvPicPr>(element, "pic:nvPicPr")?;
        let fill = read_required::<BlipFill>(element, "pic:blipFill")?;
        let sp_pr = read_required::<SpPr>(element, "pic:spPr")?;
        Ok(Picture { a, nv_pic_pr, fill, sp_pr })
    }
}

/// What the data of a graphic holds, piece by piece.
#[derive(Debug, Clone)]
pub enum GraphicContent {
    /// A picture.
    Picture(Picture),
    /// Anything else, kept as it was read.
    Other(XmlElement),
}

impl XmlCodec for GraphicContent {
    open spec fn tree(&self) -> XmlTree {
        match self {
            GraphicContent::Picture(v) => v.tree(),
            GraphicContent::Other(e) => e@,
        }
    }

    open spec fn readable(tree: XmlTree) -> bool {
        if tree.tag() == "pic:pic"@ {
            Picture::readable(tree)
        } else {
            tree is Element
        }
    }

    open spec fn read_from(&self, tree: XmlTree) -> bool {
        if tree.tag() == "pic:pic"@ {
            self matches GraphicContent::Picture(v) && v.read_from(tree)
        } else {
            self matches GraphicContent::Other(e) && e@ == tree
        }
    }

    fn to_element(&self) -> (e: XmlElement) {
        match self {
            GraphicContent::Picture(v) => v.to_element(),
            GraphicContent::Other(e) => e.duplicate(),
        }
    }

    fn from_element(element: &XmlElement) -> (r: Result<GraphicContent, DocxError>) {
        if str_eq(element.tag.as_str(), "pic:pic") {
            Ok(GraphicContent::Picture(Picture::from_element(element)?))
        } else {
            Ok(GraphicContent::Other(element.duplicate()))
        }
    }
}

/// The data of a graphic: pictures, and whatever else a graphic may hold,
/// which is kept as it was read.
#[derive(Debug, Default, Clone)]
pub struct GraphicData {
    /// The kind of data.
    pub uri: String,
    /// The pieces, in order.
    pub children: Vec<GraphicContent>,
}

impl XmlCodec for GraphicData {
    open spec fn tree(&self) -> XmlTree {
        element("a:graphicData"@)
            .with_attribute("uri"@, self.uri@)
            .with_children(trees(self.children@))
    }

    open spec fn readable(tree: XmlTree) -> bool {
        &&& tree is Element
        &&& tree.tag() == "a:graphicData"@
        &&& all_readable::<GraphicContent>(tree.all_elements())
    }

    open spec fn read_from(&self, tree: XmlTree) -> bool {
        &&& self.uri@ == text_or_empty(tree.attribute("uri"@))
        &&& all_read_from(self.children@, tree.all_elements())
    }

    fn to_element(&self) -> (e: XmlElement) {
        let mut e = XmlElement::new("a:graphicData");
        e.push_attribute("uri", self.uri.clone());
        push_all(&mut e, &self.children);
        e
    }

    fn from_element(element: &XmlElement) -> (r: Result<GraphicData, DocxError>) {
        expect_tag(element, "a:graphicData")?;
        let uri = read_text_or_empty(element.attribute("uri"));
        let children = read_every::<GraphicContent>(element)?;
        Ok(GraphicData { uri, children })
    }
}

/// The graphic payload of a drawing.
#[derive(Debug, Default, Clone)]
pub struct Graphic {
    /// The namespace of graphic elements.
    pub a: String,
    /// The data.
    pub data: GraphicData,
}

impl XmlCodec for Graphic {
    open spec fn tree(&self) -> XmlTree {
        element("a:graphic"@)
            .with_attribute("xmlns:a"@, self.a@)
            .with_child(self.data.tree())
    }

    open spec fn readable(tree: XmlTree) -> bool {
        &&& tree is Element
        &&& tree.tag() == "a:graphic"@
        &&& GraphicData::readable(tree.child_or_empty("a:graphicData"@))
    }

    open spec fn read_from(&self, tree: XmlTree) -> bool {
        &&& self.a@ == text_or_empty(tree.attribute("xmlns:a"@))
        &&& self.data.read_from(tree.child_or_empty("a:graphicData"@))
    }

    fn to_element(&self) -> (e: XmlElement) {
        let mut e = XmlElement::new("a:graphic");
        e.push_attribute("xmlns:a", self.a.clone());
        e.push_element(self.data.to_element());
        e
    }

    fn from_element(element: &XmlElement) -> (r: Result<Graphic, DocxError>) {
        expect_tag(element, "a:graphic")?;
        let a = read_text_or_empty(element.attribute("xmlns:a"));
        let data = read_or_empty::<GraphicData>(element, "a:graphicData")?;
        Ok(Graphic { a, data })
    }
}

impl Graphic {
    /// The element that the graphic is written as has the name of its kind.
    pub proof fn lemma_tree_tag(self)
        ensures
            self.tree() is Element,
            self.tree().tag() == "a:graphic"@,
    {
    }
}

/// A floating drawing: it has a position of its own, a place in the
/// stacking order and a way for text to flow around it.
#[derive(Debug, Default, Clone)]
pub struct Anchor {
    /// The distance to the text above.
    pub dist_t: Option<isize>,
    /// The distance to the text below.
    pub dist_b: Option<isize>,
    /// The distance to the text on the left.
    pub dist_l: Option<isize>,
    /// The distance to the text on the right.
    pub dist_r: Option<isize>,
    /// Whether the simple position is used: zero for no.
    pub simple_pos_attr: Option<isize>,
    /// The place in the stacking order.
    pub relative_height: Option<isize>,
    /// Whether the drawing stands behind the text.
    pub behind_doc: Option<bool>,
    /// Whether the anchor is locked.
    pub locked: Option<bool>,
    /// Whether the drawing is laid out within a table cell.
    pub layout_in_cell: Option<bool>,
    /// Whether the drawing may overlap others.
    pub allow_overlap: Option<bool>,
    /// The simple position.
    pub simple_pos: Option<SimplePos>,
    /// The horizontal position.
    pub position_horizontal: Option<PositionHorizontal>,
    /// The vertical position.
    pub position_vertical: Option<PositionVertical>,
    /// The size; it is always written.
    pub extent: Extent,
    /// The room that effects take.
    pub effect_extent: Option<EffectExtent>,
    /// How text flows around the drawing.
    pub wrap: Option<Wrap>,
    /// The identity of the drawing.
    pub doc_property: DocPr,
    /// The non-visual properties of the frame.
    pub graphic_frame_pr: Option<CnvGraphicFramePr>,
    /// The graphic payload; it is always written.
    pub graphic: Graphic,
    /// The relative width.
    pub size_rel_h: Option<SizeRelH>,
    /// The relative height.
    pub size_rel_v: Option<SizeRelV>,
}

impl XmlCodec for Anchor {
    open spec fn tree(&self) -> XmlTree {
        self.tree_to_effect_extent()
            .with_optional_child(optional_tree(self.wrap))
            .with_child(self.doc_property.tree())
            .with_optional_child(optional_tree(self.graphic_frame_pr))
            .with_child(self.graphic.tree())
            .with_optional_child(optional_tree(self.size_rel_h))
            .with_optional_child(optional_tree(self.size_rel_v))
    }

    open spec fn readable(tree: XmlTree) -> bool {
        &&& tree is Element
        &&& tree.tag() == "wp:anchor"@
        &&& int_readable(tree.attribute("distT"@))
        &&& int_readable(tree.attribute("distB"@))
        &&& int_readable(tree.attribute("distL"@))
        &&& int_readable(tree.attribute("distR"@))
        &&& int_readable(tree.attribute("simplePos"@))
        &&& int_readable(tree.attribute("relativeHeight"@))
        &&& bool_readable(tree.attribute("behindDoc"@))
        &&& bool_readable(tree.attribute("locked"@))
        &&& bool_readable(tree.attribute("layoutInCell"@))
        &&& bool_readable(tree.attribute("allowOverlap"@))
        &&& optional_readable::<SimplePos>(tree.child("wp:simplePos"@))
        &&& optional_readable::<PositionHorizontal>(tree.child("wp:positionH"@))
        &&& optional_readable::<PositionVertical>(tree.child("wp:positionV"@))
        &&& Extent::readable(tree.child_or_empty("wp:extent"@))
        &&& optional_readable::<EffectExtent>(tree.child("wp:effectExtent"@))
        &&& optional_readable::<Wrap>(Wrap::choice(tree))
        &&& required_readable::<DocPr>(tree.child("wp:docPr"@))
        &&& optional_readable::<CnvGraphicFramePr>(tree.child("wp:cNvGraphicFramePr"@))
        &&& Graphic::readable(tree.child_or_empty("a:graphic"@))
        &&& optional_readable::<SizeRelH>(tree.child("wp:sizeRelH"@))
        &&& optional_readable::<SizeRelV>(tree.child("wp:sizeRelV"@))
    }

    open spec fn read_from(&self, tree: XmlTree) -> bool {
        &&& self.dist_t == int_read(tree.attribute("distT"@))
        &&& self.dist_b == int_read(tree.attribute("distB"@))
        &&& self.dist_l == int_read(tree.attribute("distL"@))
        &&& self.dist_r == int_read(tree.attribute("distR"@))
        &&& self.simple_pos_attr == int_read(tree.attribute("simplePos"@))
        &&& self.relative_height == int_read(tree.attribute("relativeHeight"@))
        &&& self.behind_doc == bool_read(tree.attribute("behindDoc"@))
        &&& self.locked == bool_read(tree.attribute("locked"@))
        &&& self.layout_in_cell == bool_read(tree.attribute("layoutInCell"@))
        &&& self.allow_overlap == bool_read(tree.attribute("allowOverlap"@))
        &&& optional_read_from(self.simple_pos, tree.child("wp:simplePos"@))
        &&& optional_read_from(self.position_horizontal, tree.child("wp:positionH"@))
        &&& optional_read_from(self.position_vertical, tree.child("wp:positionV"@))
        &&& self.extent.read_from(tree.child_or_empty("wp:extent"@))
        &&& optional_read_from(self.effect_extent, tree.child("wp:effectExtent"@))
        &&& optional_read_from(self.wrap, Wrap::choice(tree))
        &&& required_read_from(self.doc_property, tree.child("wp:docPr"@))
        &&& optional_read_from(self.graphic_frame_pr, tree.child("wp:cNvGraphicFramePr"@))
        &&& self.graphic.read_from(tree.child_or_empty("a:graphic"@))
        &&& optional_read_from(self.size_rel_h, tree.child("wp:sizeRelH"@))
        &&& optional_read_from(self.size_rel_v, tree.child("wp:sizeRelV"@))
    }

    fn to_element(&self) -> (e: XmlElement) {
        let mut e = self.element_to_effect_extent();
        push_optional(&mut e, &self.wrap);
        e.push_element(self.doc_property.to_element());
        push_optional(&mut e, &self.graphic_frame_pr);
        e.push_element(self.graphic.to_element());
        push_optional(&mut e, &self.size_rel_h);
        push_optional(&mut e, &self.size_rel_v);
        e
    }

    fn from_element(element: &XmlElement) -> (r: Result<Anchor, DocxError>) {
        expect_tag(element, "wp:anchor")?;
        let dist_t = read_int("wp:anchor", element.attribute("distT"))?;
        let dist_b = read_int("wp:anchor", element.attribute("distB"))?;
        let dist_l = read_int("wp:anchor", element.attribute("distL"))?;
        let dist_r = read_int("wp:anchor", element.attribute("distR"))?;
        let simple_pos_attr = read_int("wp:anchor", element.attribute("simplePos"))?;
        let relative_height = read_int("wp:anchor", element.attribute("relativeHeight"))?;
        let behind_doc = read_bool("wp:anchor", element.attribute("behindDoc"))?;
        let locked = read_bool("wp:anchor", element.attribute("locked"))?;
        let layout_in_cell = read_bool("wp:anchor", element.attribute("layoutInCell"))?;
        let allow_overlap = read_bool("wp:anchor", element.attribute("allowOverlap"))?;
        let simple_pos = read_optional::<SimplePos>(element, "wp:simplePos")?;
        let position_horizontal = read_optional::<PositionHorizontal>(element, "wp:positionH")?;
        let position_vertical = read_optional::<PositionVertical>(element, "wp:positionV")?;
        let extent = read_or_empty::<Extent>(element, "wp:extent")?;
        let effect_extent = read_optional::<EffectExtent>(element, "wp:effectExtent")?;
        let wrap = match Wrap::find(element) {
            Some(c) => Some(Wrap::from_element(c)?),
            None => None,
        };
        let doc_property = read_required::<DocPr>(element, "wp:docPr")?;
        let graphic_frame_pr = read_optional::<CnvGraphicFramePr>(element, "wp:cNvGraphicFramePr")?;
        let graphic = read_or_empty::<Graphic>(element, "a:graphic")?;
        let size_rel_h = read_optional::<SizeRelH>(element, "wp:sizeRelH")?;
        let size_rel_v = read_optional::<SizeRelV>(element, "wp:sizeRelV")?;
        Ok(
            Anchor {
                dist_t,
                dist_b,
                dist_l,
                dist_r,
                simple_pos_attr,
                relative_height,
                behind_doc,
                locked,
                layout_in_cell,
                allow_overlap,
                simple_pos,
                position_horizontal,
                position_vertical,
                extent,
                effect_extent,
                wrap,
                doc_property,
                graphic_frame_pr,
                graphic,
                size_rel_h,
                size_rel_v,
            },
        )
    }
}

impl Anchor {
    /// The element that the anchor is written as, with its attributes.
    pub open spec fn attributes_tree(&self) -> XmlTree {
        element("wp:anchor"@)
            .with_optional_attribute("distT"@, optional_int_text(self.dist_t))
            .with_optional_attribute("distB"@, optional_int_text(self.dist_b))
            .with_optional_attribute("distL"@, optional_int_text(self.dist_l))
            .with_optional_attribute("distR"@, optional_int_text(self.dist_r))
            .with_optional_attribute("simplePos"@, optional_int_text(self.simple_pos_attr))
            .with_optional_attribute("relativeHeight"@, optional_int_text(self.relative_height))
            .with_optional_attribute("behindDoc"@, optional_bool_text(self.behind_doc))
            .with_optional_attribute("locked"@, optional_bool_text(self.locked))
            .with_optional_attribute("layoutInCell"@, optional_bool_text(self.layout_in_cell))
            .with_optional_attribute("allowOverlap"@, optional_bool_text(self.allow_overlap))
    }

    /// Writes the anchor as an element, with its attributes.
    fn attributes_element(&self) -> (e: XmlElement)
        ensures
            e@ == self.attributes_tree(),
    {
        let mut e = XmlElement::new("wp:anchor");
        e.push_optional_attribute("distT", int_attribute(self.dist_t));
        e.push_optional_attribute("distB", int_attribute(self.dist_b));
        e.push_optional_attribute("distL", int_attribute(self.dist_l));
        e.push_optional_attribute("distR", int_attribute(self.dist_r));
        e.push_optional_attribute("simplePos", int_attribute(self.simple_pos_attr));
        e.push_optional_attribute("relativeHeight", int_attribute(self.relative_height));
        e.push_optional_attribute("behindDoc", bool_attribute(self.behind_doc));
        e.push_optional_attribute("locked", bool_attribute(self.locked));
        e.push_optional_attribute("layoutInCell", bool_attribute(self.layout_in_cell));
        e.push_optional_attribute("allowOverlap", bool_attribute(self.allow_overlap));
        e
    }

    /// The element that the anchor is written as, up to `effect_extent`.
    pub open spec fn tree_to_effect_extent(&self) -> XmlTree {
        self.attributes_tree()
            .with_optional_child(optional_tree(self.simple_pos))
            .with_optional_child(optional_tree(self.position_horizontal))
            .with_optional_child(optional_tree(self.position_vertical))
            .with_child(self.extent.tree())
            .with_optional_child(optional_tree(self.effect_extent))
    }

    /// Writes the anchor as an element, up to `effect_extent`.
    fn element_to_effect_extent(&self) -> (e: XmlElement)
        ensures
            e@ == self.tree_to_effect_extent(),
    {
        let mut e = self.attributes_element();
        push_optional(&mut e, &self.simple_pos);
        push_optional(&mut e, &self.position_horizontal);
        push_optional(&mut e, &self.position_vertical);
        e.push_element(self.extent.to_element());
        push_optional(&mut e, &self.effect_extent);
        e
    }

    /// Each boolean attribute of the element that the anchor is written as
    /// holds `1` or `0` and nothing else.
    pub proof fn lemma_boolean_attributes(self)
        ensures
            self.tree().attribute("behindDoc"@) == optional_bool_text(self.behind_doc),
            self.tree().attribute("locked"@) == optional_bool_text(self.locked),
            self.tree().attribute("layoutInCell"@) == optional_bool_text(self.layout_in_cell),
            self.tree().attribute("allowOverlap"@) == optional_bool_text(self.allow_overlap),
    {
        reveal_strlit("distT");
        reveal_strlit("distB");
        reveal_strlit("distL");
        reveal_strlit("distR");
        reveal_strlit("simplePos");
        reveal_strlit("relativeHeight");
        reveal_strlit("behindDoc");
        reveal_strlit("locked");
        reveal_strlit("layoutInCell");
        reveal_strlit("allowOverlap");
        assert("distT"@.len() != "behindDoc"@.len());
        assert("distB"@.len() != "behindDoc"@.len());
        assert("distL"@.len() != "behindDoc"@.len());
        assert("distR"@.len() != "behindDoc"@.len());
        assert("simplePos"@[0] != "behindDoc"@[0]);
        assert("relativeHeight"@.len() != "behindDoc"@.len());
        assert("locked"@.len() != "behindDoc"@.len());
        assert("layoutInCell"@.len() != "behindDoc"@.len());
        assert("allowOverlap"@.len() != "behindDoc"@.len());
        assert("distT"@.len() != "locked"@.len());
        assert("distB"@.len() != "locked"@.len());
        assert("distL"@.len() != "locked"@.len());
        assert("distR"@.len() != "locked"@.len());
        assert("simplePos"@.len() != "locked"@.len());
        assert("relativeHeight"@.len() != "locked"@.len());
        assert("behindDoc"@.len() != "locked"@.len());
        assert("layoutInCell"@.len() != "locked"@.len());
        assert("allowOverlap"@.len() != "locked"@.len());
        assert("distT"@.len() != "layoutInCell"@.len());
        assert("distB"@.len() != "layoutInCell"@.len());
        assert("distL"@.len() != "layoutInCell"@.len());
        assert("distR"@.len() != "layoutInCell"@.len());
        assert("simplePos"@.len() != "layoutInCell"@.len());
        assert("relativeHeight"@.len() != "layoutInCell"@.len());
        assert("behindDoc"@.len() != "layoutInCell"@.len());
        assert("locked"@.len() != "layoutInCell"@.len());
        assert("allowOverlap"@[0] != "layoutInCell"@[0]);
        assert("distT"@.len() != "allowOverlap"@.len());
        assert("distB"@.len() != "allowOverlap"@.len());
        assert("distL"@.len() != "allowOverlap"@.len());
        assert("distR"@.len() != "allowOverlap"@.len());
        assert("simplePos"@.len() != "allowOverlap"@.len());
        assert("relativeHeight"@.len() != "allowOverlap"@.len());
        assert("behindDoc"@.len() != "allowOverlap"@.len());
        assert("locked"@.len() != "allowOverlap"@.len());
        assert("layoutInCell"@[0] != "allowOverlap"@[0]);
        let t0 = element("wp:anchor"@);
        lemma_attribute_of_element("wp:anchor"@, "behindDoc"@);
        lemma_attribute_of_element("wp:anchor"@, "locked"@);
        lemma_attribute_of_element("wp:anchor"@, "layoutInCell"@);
        lemma_attribute_of_element("wp:anchor"@, "allowOverlap"@);
        let t1 = t0.with_optional_attribute("distT"@, optional_int_text(self.dist_t));
        lemma_attribute_after_optional_attribute(
            t0,
            "distT"@,
            optional_int_text(self.dist_t),
            "behindDoc"@,
        );
        lemma_attribute_after_optional_attribute(
            t0,
            "distT"@,
            optional_int_text(self.dist_t),
            "locked"@,
        );
        lemma_attribute_after_optional_attribute(
            t0,
            "distT"@,
            optional_int_text(self.dist_t),
            "layoutInCell"@,
        );
        lemma_attribute_after_optional_attribute(
            t0,
            "distT"@,
            optional_int_text(self.dist_t),
            "allowOverlap"@,
        );
        let t2 = t1.with_optional_attribute("distB"@, optional_int_text(self.dist_b));
        lemma_attribute_after_optional_attribute(
            t1,
            "distB"@,
            optional_int_text(self.dist_b),
            "behindDoc"@,
        );
        lemma_attribute_after_optional_attribute(
            t1,
            "distB"@,
            optional_int_text(self.dist_b),
            "locked"@,
        );
        lemma_attribute_after_optional_attribute(
            t1,
            "distB"@,
            optional_int_text(self.dist_b),
            "layoutInCell"@,
        );
        lemma_attribute_after_optional_attribute(
            t1,
            "distB"@,
            optional_int_text(self.dist_b),
            "allowOverlap"@,
        );
        let t3 = t2.with_optional_attribute("distL"@, optional_int_text(self.dist_l));
        lemma_attribute_after_optional_attribute(
            t2,
            "distL"@,
            optional_int_text(self.dist_l),
            "behindDoc"@,
        );
        lemma_attribute_after_optional_attribute(
            t2,
            "distL"@,
            optional_int_text(self.dist_l),
            "locked"@,
        );
        lemma_attribute_after_optional_attribute(
            t2,
            "distL"@,
            optional_int_text(self.dist_l),
            "layoutInCell"@,
        );
        lemma_attribute_after_optional_attribute(
            t2,
            "distL"@,
            optional_int_text(self.dist_l),
            "allowOverlap"@,
        );
        let t4 = t3.with_optional_attribute("distR"@, optional_int_text(self.dist_r));
        lemma_attribute_after_optional_attribute(
            t3,
            "distR"@,
            optional_int_text(self.dist_r),
            "behindDoc"@,
        );
        lemma_attribute_after_optional_attribute(
            t3,
            "distR"@,
            optional_int_text(self.dist_r),
            "locked"@,
        );
        lemma_attribute_after_optional_attribute(
            t3,
            "distR"@,
            optional_int_text(self.dist_r),
            "layoutInCell"@,
        );
        lemma_attribute_after_optional_attribute(
            t3,
            "distR"@,
            optional_int_text(self.dist_r),
            "allowOverlap"@,
        );
        let t5 = t4.with_optional_attribute("simplePos"@, optional_int_text(self.simple_pos_attr));
        lemma_attribute_after_optional_attribute(
            t4,
            "simplePos"@,
            optional_int_text(self.simple_pos_attr),
            "behindDoc"@,
        );
        lemma_attribute_after_optional_attribute(
            t4,
            "simplePos"@,
            optional_int_text(self.simple_pos_attr),
            "locked"@,
        );
        lemma_attribute_after_optional_attribute(
            t4,
            "simplePos"@,
            optional_int_text(self.simple_pos_attr),
            "layoutInCell"@,
        );
        lemma_attribute_after_optional_attribute(
            t4,
            "simplePos"@,
            optional_int_text(self.simple_pos_attr),
            "allowOverlap"@,
        );
        let t6 = t5.with_optional_attribute(
            "relativeHeight"@,
            optional_int_text(self.relative_height),
        );
        lemma_attribute_after_optional_attribute(
            t5,
            "relativeHeight"@,
            optional_int_text(self.relative_height),
            "behindDoc"@,
        );
        lemma_attribute_after_optional_attribute(
            t5,
            "relativeHeight"@,
            optional_int_text(self.relative_height),
            "locked"@,
        );
        lemma_attribute_after_optional_attribute(
            t5,
            "relativeHeight"@,
            optional_int_text(self.relative_height),
            "layoutInCell"@,
        );
        lemma_attribute_after_optional_attribute(
            t5,
            "relativeHeight"@,
            optional_int_text(self.relative_height),
            "allowOverlap"@,
        );
        let t7 = t6.with_optional_attribute("behindDoc"@, optional_bool_text(self.behind_doc));
        lemma_attribute_after_optional_attribute(
            t6,
            "behindDoc"@,
            optional_bool_text(self.behind_doc),
            "behindDoc"@,
        );
        lemma_attribute_after_optional_attribute(
            t6,
            "behindDoc"@,
            optional_bool_text(self.behind_doc),
            "locked"@,
        );
        lemma_attribute_after_optional_attribute(
            t6,
            "behindDoc"@,
            optional_bool_text(self.behind_doc),
            "layoutInCell"@,
        );
        lemma_attribute_after_optional_attribute(
            t6,
            "behindDoc"@,
            optional_bool_text(self.behind_doc),
            "allowOverlap"@,
        );
        let t8 = t7.with_optional_attribute("locked"@, optional_bool_text(self.locked));
        lemma_attribute_after_optional_attribute(
            t7,
            "locked"@,
            optional_bool_text(self.locked),
            "behindDoc"@,
        );
        lemma_attribute_after_optional_attribute(
            t7,
            "locked"@,
            optional_bool_text(self.locked),
            "locked"@,
        );
        lemma_attribute_after_optional_attribute(
            t7,
            "locked"@,
            optional_bool_text(self.locked),
            "layoutInCell"@,
        );
        lemma_attribute_after_optional_attribute(
            t7,
            "locked"@,
            optional_bool_text(self.locked),
            "allowOverlap"@,
        );
        let t9 = t8.with_optional_attribute(
            "layoutInCell"@,
            optional_bool_text(self.layout_in_cell),
        );
        lemma_attribute_after_optional_attribute(
            t8,
            "layoutInCell"@,
            optional_bool_text(self.layout_in_cell),
            "behindDoc"@,
        );
        lemma_attribute_after_optional_attribute(
            t8,
            "layoutInCell"@,
            optional_bool_text(self.layout_in_cell),
            "locked"@,
        );
        lemma_attribute_after_optional_attribute(
            t8,
            "layoutInCell"@,
            optional_bool_text(self.layout_in_cell),
            "layoutInCell"@,
        );
        lemma_attribute_after_optional_attribute(
            t8,
            "layoutInCell"@,
            optional_bool_text(self.layout_in_cell),
            "allowOverlap"@,
        );
        let t10 = t9.with_optional_attribute(
            "allowOverlap"@,
            optional_bool_text(self.allow_overlap),
        );
        lemma_attribute_after_optional_attribute(
            t9,
            "allowOverlap"@,
            optional_bool_text(self.allow_overlap),
            "behindDoc"@,
        );
        lemma_attribute_after_optional_attribute(
            t9,
            "allowOverlap"@,
            optional_bool_text(self.allow_overlap),
            "locked"@,
        );
        lemma_attribute_after_optional_attribute(
            t9,
            "allowOverlap"@,
            optional_bool_text(self.allow_overlap),
            "layoutInCell"@,
        );
        lemma_attribute_after_optional_attribute(
            t9,
            "allowOverlap"@,
            optional_bool_text(self.allow_overlap),
            "allowOverlap"@,
        );
        let t11 = t10.with_optional_child(optional_tree(self.simple_pos));
        assert(t11.attribute("behindDoc"@) == t10.attribute("behindDoc"@));
        assert(t11.attribute("locked"@) == t10.attribute("locked"@));
        assert(t11.attribute("layoutInCell"@) == t10.attribute("layoutInCell"@));
        assert(t11.attribute("allowOverlap"@) == t10.attribute("allowOverlap"@));
        let t12 = t11.with_optional_child(optional_tree(self.position_horizontal));
        assert(t12.attribute("behindDoc"@) == t11.attribute("behindDoc"@));
        assert(t12.attribute("locked"@) == t11.attribute("locked"@));
        assert(t12.attribute("layoutInCell"@) == t11.attribute("layoutInCell"@));
        assert(t12.attribute("allowOverlap"@) == t11.attribute("allowOverlap"@));
        let t13 = t12.with_optional_child(optional_tree(self.position_vertical));
        assert(t13.attribute("behindDoc"@) == t12.attribute("behindDoc"@));
        assert(t13.attribute("locked"@) == t12.attribute("locked"@));
        assert(t13.attribute("layoutInCell"@) == t12.attribute("layoutInCell"@));
        assert(t13.attribute("allowOverlap"@) == t12.attribute("allowOverlap"@));
        let t14 = t13.with_child(self.extent.tree());
        assert(t14.attribute("behindDoc"@) == t13.attribute("behindDoc"@));
        assert(t14.attribute("locked"@) == t13.attribute("locked"@));
        assert(t14.attribute("layoutInCell"@) == t13.attribute("layoutInCell"@));
        assert(t14.attribute("allowOverlap"@) == t13.attribute("allowOverlap"@));
        let t15 = t14.with_optional_child(optional_tree(self.effect_extent));
        assert(t15.attribute("behindDoc"@) == t14.attribute("behindDoc"@));
        assert(t15.attribute("locked"@) == t14.attribute("locked"@));
        assert(t15.attribute("layoutInCell"@) == t14.attribute("layoutInCell"@));
        assert(t15.attribute("allowOverlap"@) == t14.attribute("allowOverlap"@));
        let t16 = t15.with_optional_child(optional_tree(self.wrap));
        assert(t16.attribute("behindDoc"@) == t15.attribute("behindDoc"@));
        assert(t16.attribute("locked"@) == t15.attribute("locked"@));
        assert(t16.attribute("layoutInCell"@) == t15.attribute("layoutInCell"@));
        assert(t16.attribute("allowOverlap"@) == t15.attribute("allowOverlap"@));
        let t17 = t16.with_child(self.doc_property.tree());
        assert(t17.attribute("behindDoc"@) == t16.attribute("behindDoc"@));
        assert(t17.attribute("locked"@) == t16.attribute("locked"@));
        assert(t17.attribute("layoutInCell"@) == t16.attribute("layoutInCell"@));
        assert(t17.attribute("allowOverlap"@) == t16.attribute("allowOverlap"@));
        let t18 = t17.with_optional_child(optional_tree(self.graphic_frame_pr));
        assert(t18.attribute("behindDoc"@) == t17.attribute("behindDoc"@));
        assert(t18.attribute("locked"@) == t17.attribute("locked"@));
        assert(t18.attribute("layoutInCell"@) == t17.attribute("layoutInCell"@));
        assert(t18.attribute("allowOverlap"@) == t17.attribute("allowOverlap"@));
        let t19 = t18.with_child(self.graphic.tree());
        assert(t19.attribute("behindDoc"@) == t18.attribute("behindDoc"@));
        assert(t19.attribute("locked"@) == t18.attribute("locked"@));
        assert(t19.attribute("layoutInCell"@) == t18.attribute("layoutInCell"@));
        assert(t19.attribute("allowOverlap"@) == t18.attribute("allowOverlap"@));
        let t20 = t19.with_optional_child(optional_tree(self.size_rel_h));
        assert(t20.attribute("behindDoc"@) == t19.attribute("behindDoc"@));
        assert(t20.attribute("locked"@) == t19.attribute("locked"@));
        assert(t20.attribute("layoutInCell"@) == t19.attribute("layoutInCell"@));
        assert(t20.attribute("allowOverlap"@) == t19.attribute("allowOverlap"@));
        let t21 = t20.with_optional_child(optional_tree(self.size_rel_v));
        assert(t21.attribute("behindDoc"@) == t20.attribute("behindDoc"@));
        assert(t21.attribute("locked"@) == t20.attribute("locked"@));
        assert(t21.attribute("layoutInCell"@) == t20.attribute("layoutInCell"@));
        assert(t21.attribute("allowOverlap"@) == t20.attribute("allowOverlap"@));
        assert(t21 == self.tree());
    }

    /// Whatever the value holds, each of these parts is found in the element
    /// that it is written as, under its name.
    pub proof fn lemma_children(self)
        ensures
            self.tree().child("wp:extent"@) == Some(self.extent.tree()),
            self.tree().child("wp:docPr"@) == Some(self.doc_property.tree()),
            self.tree().child("a:graphic"@) == Some(self.graphic.tree()),
    {
        reveal_strlit("wp:simplePos");
        reveal_strlit("wp:positionH");
        reveal_strlit("wp:positionV");
        reveal_strlit("wp:extent");
        reveal_strlit("wp:effectExtent");
        reveal_strlit("wp:wrapNone");
        reveal_strlit("wp:wrapSquare");
        reveal_strlit("wp:wrapTight");
        reveal_strlit("wp:wrapThrough");
        reveal_strlit("wp:wrapTopAndBottom");
        reveal_strlit("wp:docPr");
        reveal_strlit("wp:cNvGraphicFramePr");
        reveal_strlit("a:graphic");
        reveal_strlit("wp:sizeRelH");
        reveal_strlit("wp:sizeRelV");
        assert("wp:simplePos"@.len() != "wp:extent"@.len());
        assert("wp:positionH"@.len() != "wp:extent"@.len());
        assert("wp:positionV"@.len() != "wp:extent"@.len());
        assert("wp:effectExtent"@.len() != "wp:extent"@.len());
        assert("wp:wrapNone"@.len() != "wp:extent"@.len());
        assert("wp:wrapSquare"@.len() != "wp:extent"@.len());
        assert("wp:wrapTight"@.len() != "wp:extent"@.len());
        assert("wp:wrapThrough"@.len() != "wp:extent"@.len());
        assert("wp:wrapTopAndBottom"@.len() != "wp:extent"@.len());
        assert("wp:docPr"@.len() != "wp:extent"@.len());
        assert("wp:cNvGraphicFramePr"@.len() != "wp:extent"@.len());
        assert("a:graphic"@[0] != "wp:extent"@[0]);
        assert("wp:sizeRelH"@.len() != "wp:extent"@.len());
        assert("wp:sizeRelV"@.len() != "wp:extent"@.len());
        assert("wp:simplePos"@.len() != "wp:docPr"@.len());
        assert("wp:positionH"@.len() != "wp:docPr"@.len());
        assert("wp:positionV"@.len() != "wp:docPr"@.len());
        assert("wp:extent"@.len() != "wp:docPr"@.len());
        assert("wp:effectExtent"@.len() != "wp:docPr"@.len());
        assert("wp:wrapNone"@.len() != "wp:docPr"@.len());
        assert("wp:wrapSquare"@.len() != "wp:docPr"@.len());
        assert("wp:wrapTight"@.len() != "wp:docPr"@.len());
        assert("wp:wrapThrough"@.len() != "wp:docPr"@.len());
        assert("wp:wrapTopAndBottom"@.len() != "wp:docPr"@.len());
        assert("wp:cNvGraphicFramePr"@.len() != "wp:docPr"@.len());
        assert("a:graphic"@.len() != "wp:docPr"@.len());
        assert("wp:sizeRelH"@.len() != "wp:docPr"@.len());
        assert("wp:sizeRelV"@.len() != "wp:docPr"@.len());
        assert("wp:simplePos"@.len() != "a:graphic"@.len());
        assert("wp:positionH"@.len() != "a:graphic"@.len());
        assert("wp:positionV"@.len() != "a:graphic"@.len());
        assert("wp:extent"@[0] != "a:graphic"@[0]);
        assert("wp:effectExtent"@.len() != "a:graphic"@.len());
        assert("wp:wrapNone"@.len() != "a:graphic"@.len());
        assert("wp:wrapSquare"@.len() != "a:graphic"@.len());
        assert("wp:wrapTight"@.len() != "a:graphic"@.len());
        assert("wp:wrapThrough"@.len() != "a:graphic"@.len());
        assert("wp:wrapTopAndBottom"@.len() != "a:graphic"@.len());
        assert("wp:docPr"@.len() != "a:graphic"@.len());
        assert("wp:cNvGraphicFramePr"@.len() != "a:graphic"@.len());
        assert("wp:sizeRelH"@.len() != "a:graphic"@.len());
        assert("wp:sizeRelV"@.len() != "a:graphic"@.len());
        let t0 = element("wp:anchor"@);
        let t1 = t0.with_optional_attribute("distT"@, optional_int_text(self.dist_t));
        assert(t1.child("wp:extent"@) == t0.child("wp:extent"@));
        assert(t1.child("wp:docPr"@) == t0.child("wp:docPr"@));
        assert(t1.child("a:graphic"@) == t0.child("a:graphic"@));
        let t2 = t1.with_optional_attribute("distB"@, optional_int_text(self.dist_b));
        assert(t2.child("wp:extent"@) == t1.child("wp:extent"@));
        assert(t2.child("wp:docPr"@) == t1.child("wp:docPr"@));
        assert(t2.child("a:graphic"@) == t1.child("a:graphic"@));
        let t3 = t2.with_optional_attribute("distL"@, optional_int_text(self.dist_l));
        assert(t3.child("wp:extent"@) == t2.child("wp:extent"@));
        assert(t3.child("wp:docPr"@) == t2.child("wp:docPr"@));
        assert(t3.child("a:graphic"@) == t2.child("a:graphic"@));
        let t4 = t3.with_optional_attribute("distR"@, optional_int_text(self.dist_r));
        assert(t4.child("wp:extent"@) == t3.child("wp:extent"@));
        assert(t4.child("wp:docPr"@) == t3.child("wp:docPr"@));
        assert(t4.child("a:graphic"@) == t3.child("a:graphic"@));
        let t5 = t4.with_optional_attribute("simplePos"@, optional_int_text(self.simple_pos_attr));
        assert(t5.child("wp:extent"@) == t4.child("wp:extent"@));
        assert(t5.child("wp:docPr"@) == t4.child("wp:docPr"@));
        assert(t5.child("a:graphic"@) == t4.child("a:graphic"@));
        let t6 = t5.with_optional_attribute(
            "relativeHeight"@,
            optional_int_text(self.relative_height),
        );
        assert(t6.child("wp:extent"@) == t5.child("wp:extent"@));
        assert(t6.child("wp:docPr"@) == t5.child("wp:docPr"@));
        assert(t6.child("a:graphic"@) == t5.child("a:graphic"@));
        let t7 = t6.with_optional_attribute("behindDoc"@, optional_bool_text(self.behind_doc));
        assert(t7.child("wp:extent"@) == t6.child("wp:extent"@));
        assert(t7.child("wp:docPr"@) == t6.child("wp:docPr"@));
        assert(t7.child("a:graphic"@) == t6.child("a:graphic"@));
        let t8 = t7.with_optional_attribute("locked"@, optional_bool_text(self.locked));
        assert(t8.child("wp:extent"@) == t7.child("wp:extent"@));
        assert(t8.child("wp:docPr"@) == t7.child("wp:docPr"@));
        assert(t8.child("a:graphic"@) == t7.child("a:graphic"@));
        let t9 = t8.with_optional_attribute(
            "layoutInCell"@,
            optional_bool_text(self.layout_in_cell),
        );
        assert(t9.child("wp:extent"@) == t8.child("wp:extent"@));
        assert(t9.child("wp:docPr"@) == t8.child("wp:docPr"@));
        assert(t9.child("a:graphic"@) == t8.child("a:graphic"@));
        let t10 = t9.with_optional_attribute(
            "allowOverlap"@,
            optional_bool_text(self.allow_overlap),
        );
        assert(t10.child("wp:extent"@) == t9.child("wp:extent"@));
        assert(t10.child("wp:docPr"@) == t9.child("wp:docPr"@));
        assert(t10.child("a:graphic"@) == t9.child("a:graphic"@));
        let t11 = t10.with_optional_child(optional_tree(self.simple_pos));
        if self.simple_pos is Some {
            self.simple_pos->0.lemma_tree_tag();
        }
        lemma_child_after_optional_child(t10, optional_tree(self.simple_pos), "wp:extent"@);
        lemma_child_after_optional_child(t10, optional_tree(self.simple_pos), "wp:docPr"@);
        lemma_child_after_optional_child(t10, optional_tree(self.simple_pos), "a:graphic"@);
        let t12 = t11.with_optional_child(optional_tree(self.position_horizontal));
        if self.position_horizontal is Some {
            self.position_horizontal->0.lemma_tree_tag();
        }
        lemma_child_after_optional_child(
            t11,
            optional_tree(self.position_horizontal),
            "wp:extent"@,
        );
        lemma_child_after_optional_child(t11, optional_tree(self.position_horizontal), "wp:docPr"@);
        lemma_child_after_optional_child(
            t11,
            optional_tree(self.position_horizontal),
            "a:graphic"@,
        );
        let t13 = t12.with_optional_child(optional_tree(self.position_vertical));
        if self.position_vertical is Some {
            self.position_vertical->0.lemma_tree_tag();
        }
        lemma_child_after_optional_child(t12, optional_tree(self.position_vertical), "wp:extent"@);
        lemma_child_after_optional_child(t12, optional_tree(self.position_vertical), "wp:docPr"@);
        lemma_child_after_optional_child(t12, optional_tree(self.position_vertical), "a:graphic"@);
        let t14 = t13.with_child(self.extent.tree());
        self.extent.lemma_tree_tag();
        lemma_child_after_child(t13, self.extent.tree(), "wp:extent"@);
        lemma_child_after_child(t13, self.extent.tree(), "wp:docPr"@);
        lemma_child_after_child(t13, self.extent.tree(), "a:graphic"@);
        let t15 = t14.with_optional_child(optional_tree(self.effect_extent));
        if self.effect_extent is Some {
            self.effect_extent->0.lemma_tree_tag();
        }
        lemma_child_after_optional_child(t14, optional_tree(self.effect_extent), "wp:extent"@);
        lemma_child_after_optional_child(t14, optional_tree(self.effect_extent), "wp:docPr"@);
        lemma_child_after_optional_child(t14, optional_tree(self.effect_extent), "a:graphic"@);
        let t16 = t15.with_optional_child(optional_tree(self.wrap));
        if self.wrap is Some {
            self.wrap->0.lemma_tree_tag();
        }
        lemma_child_after_optional_child(t15, optional_tree(self.wrap), "wp:extent"@);
        lemma_child_after_optional_child(t15, optional_tree(self.wrap), "wp:docPr"@);
        lemma_child_after_optional_child(t15, optional_tree(self.wrap), "a:graphic"@);
        let t17 = t16.with_child(self.doc_property.tree());
        self.doc_property.lemma_tree_tag();
        lemma_child_after_child(t16, self.doc_property.tree(), "wp:extent"@);
        lemma_child_after_child(t16, self.doc_property.tree(), "wp:docPr"@);
        lemma_child_after_child(t16, self.doc_property.tree(), "a:graphic"@);
        let t18 = t17.with_optional_child(optional_tree(self.graphic_frame_pr));
        if self.graphic_frame_pr is Some {
            self.graphic_frame_pr->0.lemma_tree_tag();
        }
        lemma_child_after_optional_child(t17, optional_tree(self.graphic_frame_pr), "wp:extent"@);
        lemma_child_after_optional_child(t17, optional_tree(self.graphic_frame_pr), "wp:docPr"@);
        lemma_child_after_optional_child(t17, optional_tree(self.graphic_frame_pr), "a:graphic"@);
        let t19 = t18.with_child(self.graphic.tree());
        self.graphic.lemma_tree_tag();
        lemma_child_after_child(t18, self.graphic.tree(), "wp:extent"@);
        lemma_child_after_child(t18, self.graphic.tree(), "wp:docPr"@);
        lemma_child_after_child(t18, self.graphic.tree(), "a:graphic"@);
        let t20 = t19.with_optional_child(optional_tree(self.size_rel_h));
        if self.size_rel_h is Some {
            self.size_rel_h->0.lemma_tree_tag();
        }
        lemma_child_after_optional_child(t19, optional_tree(self.size_rel_h), "wp:extent"@);
        lemma_child_after_optional_child(t19, optional_tree(self.size_rel_h), "wp:docPr"@);
        lemma_child_after_optional_child(t19, optional_tree(self.size_rel_h), "a:graphic"@);
        let t21 = t20.with_optional_child(optional_tree(self.size_rel_v));
        if self.size_rel_v is Some {
            self.size_rel_v->0.lemma_tree_tag();
        }
        lemma_child_after_optional_child(t20, optional_tree(self.size_rel_v), "wp:extent"@);
        lemma_child_after_optional_child(t20, optional_tree(self.size_rel_v), "wp:docPr"@);
        lemma_child_after_optional_child(t20, optional_tree(self.size_rel_v), "a:graphic"@);
        assert(t21 == self.tree());
    }

    /// Writes the anchor into a sink, after what the sink holds: the start
    /// tag with the attributes that are set, booleans as `1` or `0`, then
    /// the children that are there in the order of the schema, then the
    /// closing tag.
    pub fn to_writer(&self, sink: &mut XmlSink)
        ensures
            written(*final(sink)) == written(*old(sink)) + encode_utf8(tree_text(self.tree())),
    {
        write_element(sink, &self.to_element());
    }
}

/// A drawing that stands in the line of text: a size, an identity and a
/// graphic, with no position of its own.
#[derive(Debug, Default, Clone)]
pub struct Inline {
    /// The distance to the text above.
    pub dist_t: Option<isize>,
    /// The distance to the text below.
    pub dist_b: Option<isize>,
    /// The distance to the text on the left.
    pub dist_l: Option<isize>,
    /// The distance to the text on the right.
    pub dist_r: Option<isize>,
    /// The size; it is always written.
    pub extent: Extent,
    /// The identity of the drawing.
    pub doc_property: DocPr,
    /// The graphic payload; it is always written.
    pub graphic: Graphic,
}

impl XmlCodec for Inline {
    open spec fn tree(&self) -> XmlTree {
        element("wp:inline"@)
            .with_optional_attribute("distT"@, optional_int_text(self.dist_t))
            .with_optional_attribute("distB"@, optional_int_text(self.dist_b))
            .with_optional_attribute("distL"@, optional_int_text(self.dist_l))
            .with_optional_attribute("distR"@, optional_int_text(self.dist_r))
            .with_child(self.extent.tree())
            .with_child(self.doc_property.tree())
            .with_child(self.graphic.tree())
    }

    open spec fn readable(tree: XmlTree) -> bool {
        &&& tree is Element
        &&& tree.tag() == "wp:inline"@
        &&& int_readable(tree.attribute("distT"@))
        &&& int_readable(tree.attribute("distB"@))
        &&& int_readable(tree.attribute("distL"@))
        &&& int_readable(tree.attribute("distR"@))
        &&& Extent::readable(tree.child_or_empty("wp:extent"@))
        &&& required_readable::<DocPr>(tree.child("wp:docPr"@))
        &&& Graphic::readable(tree.child_or_empty("a:graphic"@))
    }

    open spec fn read_from(&self, tree: XmlTree) -> bool {
        &&& self.dist_t == int_read(tree.attribute("distT"@))
        &&& self.dist_b == int_read(tree.attribute("distB"@))
        &&& self.dist_l == int_read(tree.attribute("distL"@))
        &&& self.dist_r == int_read(tree.attribute("distR"@))
        &&& self.extent.read_from(tree.child_or_empty("wp:extent"@))
        &&& required_read_from(self.doc_property, tree.child("wp:docPr"@))
        &&& self.graphic.read_from(tree.child_or_empty("a:graphic"@))
    }

    fn to_element(&self) -> (e: XmlElement) {
        let mut e = XmlElement::new("wp:inline");
        e.push_optional_attribute("distT", int_attribute(self.dist_t));
        e.push_optional_attribute("distB", int_attribute(self.dist_b));
        e.push_optional_attribute("distL", int_attribute(self.dist_l));
        e.push_optional_attribute("distR", int_attribute(self.dist_r));
        e.push_element(self.extent.to_element());
        e.push_element(self.doc_property.to_element());
        e.push_element(self.graphic.to_element());
        e
    }

    fn from_element(element: &XmlElement) -> (r: Result<Inline, DocxError>) {
        expect_tag(element, "wp:inline")?;
        let dist_t = read_int("wp:inline", element.attribute("distT"))?;
        let dist_b = read_int("wp:inline", element.attribute("distB"))?;
        let dist_l = read_int("wp:inline", element.attribute("distL"))?;
        let dist_r = read_int("wp:inline", element.attribute("distR"))?;
        let extent = read_or_empty::<Extent>(element, "wp:extent")?;
        let doc_property = read_required::<DocPr>(element, "wp:docPr")?;
        let graphic = read_or_empty::<Graphic>(element, "a:graphic")?;
        Ok(Inline { dist_t, dist_b, dist_l, dist_r, extent, doc_property, graphic })
    }
}

impl Inline {
    /// Whatever the value holds, each of these parts is found in the element
    /// that it is written as, under its name.
    pub proof fn lemma_children(self)
        ensures
            self.tree().child("wp:extent"@) == Some(self.extent.tree()),
            self.tree().child("wp:docPr"@) == Some(self.doc_property.tree()),
            self.tree().child("a:graphic"@) == Some(self.graphic.tree()),
    {
        reveal_strlit("wp:extent");
        reveal_strlit("wp:docPr");
        reveal_strlit("a:graphic");
        assert("wp:docPr"@.len() != "wp:extent"@.len());
        assert("a:graphic"@[0] != "wp:extent"@[0]);
        assert("wp:extent"@.len() != "wp:docPr"@.len());
        assert("a:graphic"@.len() != "wp:docPr"@.len());
        assert("wp:extent"@[0] != "a:graphic"@[0]);
        assert("wp:docPr"@.len() != "a:graphic"@.len());
        let t0 = element("wp:inline"@);
        let t1 = t0.with_optional_attribute("distT"@, optional_int_text(self.dist_t));
        assert(t1.child("wp:extent"@) == t0.child("wp:extent"@));
        assert(t1.child("wp:docPr"@) == t0.child("wp:docPr"@));
        assert(t1.child("a:graphic"@) == t0.child("a:graphic"@));
        let t2 = t1.with_optional_attribute("distB"@, optional_int_text(self.dist_b));
        assert(t2.child("wp:extent"@) == t1.child("wp:extent"@));
        assert(t2.child("wp:docPr"@) == t1.child("wp:docPr"@));
        assert(t2.child("a:graphic"@) == t1.child("a:graphic"@));
        let t3 = t2.with_optional_attribute("distL"@, optional_int_text(self.dist_l));
        assert(t3.child("wp:extent"@) == t2.child("wp:extent"@));
        assert(t3.child("wp:docPr"@) == t2.child("wp:docPr"@));
        assert(t3.child("a:graphic"@) == t2.child("a:graphic"@));
        let t4 = t3.with_optional_attribute("distR"@, optional_int_text(self.dist_r));
        assert(t4.child("wp:extent"@) == t3.child("wp:extent"@));
        assert(t4.child("wp:docPr"@) == t3.child("wp:docPr"@));
        assert(t4.child("a:graphic"@) == t3.child("a:graphic"@));
        let t5 = t4.with_child(self.extent.tree());
        self.extent.lemma_tree_tag();
        lemma_child_after_child(t4, self.extent.tree(), "wp:extent"@);
        lemma_child_after_child(t4, self.extent.tree(), "wp:docPr"@);
        lemma_child_after_child(t4, self.extent.tree(), "a:graphic"@);
        let t6 = t5.with_child(self.doc_property.tree());
        self.doc_property.lemma_tree_tag();
        lemma_child_after_child(t5, self.doc_property.tree(), "wp:extent"@);
        lemma_child_after_child(t5, self.doc_property.tree(), "wp:docPr"@);
        lemma_child_after_child(t5, self.doc_property.tree(), "a:graphic"@);
        let t7 = t6.with_child(self.graphic.tree());
        self.graphic.lemma_tree_tag();
        lemma_child_after_child(t6, self.graphic.tree(), "wp:extent"@);
        lemma_child_after_child(t6, self.graphic.tree(), "wp:docPr"@);
        lemma_child_after_child(t6, self.graphic.tree(), "a:graphic"@);
        assert(t7 == self.tree());
    }
}

/// A drawing in a run: floating or inline. At most one of the two is
/// there at a time.
#[derive(Debug, Default, Clone)]
pub struct Drawing {
    /// The floating form.
    pub anchor: Option<Anchor>,
    /// The inline form.
    pub inline: Option<Inline>,
}

impl XmlCodec for Drawing {
    open spec fn tree(&self) -> XmlTree {
        element("w:drawing"@)
            .with_optional_child(optional_tree(self.anchor))
            .with_optional_child(optional_tree(self.inline))
    }

    open spec fn readable(tree: XmlTree) -> bool {
        &&& tree is Element
        &&& tree.tag() == "w:drawing"@
        &&& optional_readable::<Anchor>(tree.child("wp:anchor"@))
        &&& optional_readable::<Inline>(tree.child("wp:inline"@))
    }

    open spec fn read_from(&self, tree: XmlTree) -> bool {
        &&& optional_read_from(self.anchor, tree.child("wp:anchor"@))
        &&& optional_read_from(self.inline, tree.child("wp:inline"@))
    }

    fn to_element(&self) -> (e: XmlElement) {
        let mut e = XmlElement::new("w:drawing");
        push_optional(&mut e, &self.anchor);
        push_optional(&mut e, &self.inline);
        e
    }

    fn from_element(element: &XmlElement) -> (r: Result<Drawing, DocxError>) {
        expect_tag(element, "w:drawing")?;
        let anchor = read_optional::<Anchor>(element, "wp:anchor")?;
        let inline = read_optional::<Inline>(element, "wp:inline")?;
        Ok(Drawing { anchor, inline })
    }
}

impl Default for SizeRelH {
    /// A relative width that leaves the size as it is: no share of the
    /// margin.
    fn default() -> (size: SizeRelH)
        ensures
            size.relative_from@ == "margin"@,
            size.pct_width == 0,
    {
        SizeRelH { relative_from: String::from_str("margin"), pct_width: 0 }
    }
}

impl Default for SizeRelV {
    /// A relative height that leaves the size as it is: no share of the
    /// margin.
    fn default() -> (size: SizeRelV)
        ensures
            size.relative_from@ == "margin"@,
            size.pct_height == 0,
    {
        SizeRelV { relative_from: String::from_str("margin"), pct_height: 0 }
    }
}

impl Default for CnvGraphicFramePr {
    /// Properties that fix the aspect ratio.
    fn default() -> (properties: CnvGraphicFramePr)
        ensures
            properties.graphic_frame_locks.no_change_aspect,
    {
        CnvGraphicFramePr { graphic_frame_locks: GraphicFrameLocks { no_change_aspect: true } }
    }
}

impl Default for CnvPicPr {
    /// Properties that fix the aspect ratio and the arrowheads.
    fn default() -> (properties: CnvPicPr)
        ensures
            properties.pic_locks.no_change_aspect,
            properties.pic_locks.no_change_arrowheads,
    {
        CnvPicPr { pic_locks: PicLocks { no_change_aspect: true, no_change_arrowheads: true } }
    }
}

} // verus!
