//! The complete form of a floating drawing: an anchor in which every
//! element that a word processor expects is present.
//!
//! A position here must carry exactly one of an alignment keyword and a
//! literal offset. [`PositionH::validate`] and [`PositionV::validate`] check
//! that, and [`WpAnchor::to_xml`] refuses to write an anchor that fails.

use vstd::prelude::*;
use vstd::string::StringExecFns;
use crate::codec::XmlCodec;
use crate::drawing::{
    CnvGraphicFramePr, DocPr, EffectExtent, Extent, Graphic, SimplePos, SizeRelH, SizeRelV,
};
use crate::error::{DefectModel, DrawingMLError};
use crate::lexical::{bool_literal, decimal, decimal_i64, serialize_bool_ooxml};
use crate::xml::{
    element, lemma_attribute_after_attribute, lemma_attribute_of_element,
    lemma_child_after_child, text_element, tree_text, XmlElement, XmlTree,
};

verus! {

/// The horizontal position of a complete anchor: relative to something,
/// by an alignment keyword or by a literal offset.
#[derive(Debug, Clone, PartialEq)]
pub struct PositionH {
    /// What the position is measured from.
    pub relative_from: String,
    /// The alignment keyword.
    pub align: Option<String>,
    /// The literal offset, in EMU.
    pub pos_offset: Option<i32>,
}

impl PositionH {
    /// Whether exactly one of alignment and offset is set.
    pub open spec fn is_valid(&self) -> bool {
        (self.align is Some) != (self.pos_offset is Some)
    }

    /// What is wrong with the position, if anything: with neither an
    /// alignment nor an offset, an element is missing; with both, the
    /// positioning is contradictory.
    pub open spec fn defect(&self) -> Option<DefectModel> {
        match (self.align, self.pos_offset) {
            (None, None) => Some(
                DefectModel::MissingRequiredElement(
                    "positionH requires either align or posOffset - THIS IS THE MAIN CORRUPTION CAUSE"@,
                ),
            ),
            (Some(_), Some(_)) => Some(
                DefectModel::InvalidPositioning("positionH cannot have both align and posOffset"@),
            ),
            _ => None,
        }
    }

    /// Checks that the position carries exactly one of an alignment and an
    /// offset, and reports what is wrong where it does not.
    pub fn validate(&self) -> (r: Result<(), DrawingMLError>)
        ensures
            r is Ok <==> self.is_valid(),
            match self.defect() {
                Some(defect) => r matches Err(e) && e@ == defect,
                None => r is Ok,
            },
    {
        match (&self.align, &self.pos_offset) {
            (None, None) => Err(
                DrawingMLError::MissingRequiredElement(
                    String::from_str(
                        "positionH requires either align or posOffset - THIS IS THE MAIN CORRUPTION CAUSE",
                    ),
                ),
            ),
            (Some(_), Some(_)) => Err(
                DrawingMLError::InvalidPositioning(
                    String::from_str("positionH cannot have both align and posOffset"),
                ),
            ),
            _ => Ok(()),
        }
    }

    /// A position that is safe to write: centred in the column.
    pub fn safe_default() -> (position: PositionH)
        ensures
            position.relative_from@ == "column"@,
            position.align matches Some(a) && a@ == "center"@,
            position.pos_offset is None,
            position.is_valid(),
    {
        PositionH {
            relative_from: String::from_str("column"),
            align: Some(String::from_str("center")),
            pos_offset: None,
        }
    }

    /// The element that says where the drawing stands: the alignment where
    /// there is one, else the offset, else a centred alignment, so that
    /// what is written is never without a position.
    pub open spec fn content_tree(&self) -> XmlTree {
        match (self.align, self.pos_offset) {
            (Some(a), _) => text_element("wp:align"@, a@),
            (None, Some(offset)) => text_element("wp:posOffset"@, decimal(offset as int)),
            (None, None) => text_element("wp:align"@, "center"@),
        }
    }

    /// The element that the position is written as.
    pub open spec fn tree(&self) -> XmlTree {
        element("wp:positionH"@).with_attribute("relativeFrom"@, self.relative_from@).with_child(
            self.content_tree(),
        )
    }

    /// The element that the position is written as has the name of its
    /// kind.
    pub proof fn lemma_tree_tag(self)
        ensures
            self.tree() is Element,
            self.tree().tag() == "wp:positionH"@,
    {
    }

    /// Whatever the position holds, it is written with exactly one child,
    /// an alignment or an offset.
    pub proof fn lemma_one_child(self)
        ensures
            self.tree().children() == seq![self.content_tree()],
            self.content_tree().tag() == "wp:align"@ || self.content_tree().tag()
                == "wp:posOffset"@,
    {
        assert(self.tree().children() =~= seq![self.content_tree()]);
    }

    /// Writes the position as an element.
    pub fn to_element(&self) -> (e: XmlElement)
        ensures
            e@ == self.tree(),
    {
        let mut e = XmlElement::new("wp:positionH");
        e.push_attribute("relativeFrom", self.relative_from.clone());
        let content = match (&self.align, &self.pos_offset) {
            (Some(a), _) => XmlElement::with_text("wp:align", a.clone()),
            (None, Some(offset)) => XmlElement::with_text(
                "wp:posOffset",
                decimal_i64(*offset as i64),
            ),
            (None, None) => XmlElement::with_text("wp:align", String::from_str("center")),
        };
        e.push_element(content);
        e
    }

    /// The position as XML text.
    pub fn to_xml(&self) -> (text: String)
        ensures
            text@ == tree_text(self.tree()),
    {
        self.to_element().to_text()
    }
}

/// The vertical position of a complete anchor: relative to something,
/// by an alignment keyword or by a literal offset.
#[derive(Debug, Clone, PartialEq)]
pub struct PositionV {
    /// What the position is measured from.
    pub relative_from: String,
    /// The alignment keyword.
    pub align: Option<String>,
    /// The literal offset, in EMU.
    pub pos_offset: Option<i32>,
}

impl PositionV {
    /// Whether exactly one of alignment and offset is set.
    pub open spec fn is_valid(&self) -> bool {
        (self.align is Some) != (self.pos_offset is Some)
    }

    /// What is wrong with the position, if anything: with neither an
    /// alignment nor an offset, an element is missing; with both, the
    /// positioning is contradictory.
    pub open spec fn defect(&self) -> Option<DefectModel> {
        match (self.align, self.pos_offset) {
            (None, None) => Some(
                DefectModel::MissingRequiredElement(
                    "positionV requires either align or posOffset"@,
                ),
            ),
            (Some(_), Some(_)) => Some(
                DefectModel::InvalidPositioning("positionV cannot have both align and posOffset"@),
            ),
            _ => None,
        }
    }

    /// Checks that the position carries exactly one of an alignment and an
    /// offset, and reports what is wrong where it does not.
    pub fn validate(&self) -> (r: Result<(), DrawingMLError>)
        ensures
            r is Ok <==> self.is_valid(),
            match self.defect() {
                Some(defect) => r matches Err(e) && e@ == defect,
                None => r is Ok,
            },
    {
        match (&self.align, &self.pos_offset) {
            (None, None) => Err(
                DrawingMLError::MissingRequiredElement(
                    String::from_str("positionV requires either align or posOffset"),
                ),
            ),
            (Some(_), Some(_)) => Err(
                DrawingMLError::InvalidPositioning(
                    String::from_str("positionV cannot have both align and posOffset"),
                ),
            ),
            _ => Ok(()),
        }
    }

    /// A position that is safe to write: at the top of the paragraph.
    pub fn safe_default() -> (position: PositionV)
        ensures
            position.relative_from@ == "paragraph"@,
            position.align is None,
            position.pos_offset == Some(0i32),
            position.is_valid(),
    {
        PositionV {
            relative_from: String::from_str("paragraph"),
            align: None,
            pos_offset: Some(0),
        }
    }

    /// The element that says where the drawing stands: the alignment where
    /// there is one, else the offset, else an offset of zero, so that
    /// what is written is never without a position.
    pub open spec fn content_tree(&self) -> XmlTree {
        match (self.align, self.pos_offset) {
            (Some(a), _) => text_element("wp:align"@, a@),
            (None, Some(offset)) => text_element("wp:posOffset"@, decimal(offset as int)),
            (None, None) => text_element("wp:posOffset"@, "0"@),
        }
    }

    /// The element that the position is written as.
    pub open spec fn tree(&self) -> XmlTree {
        element("wp:positionV"@).with_attribute("relativeFrom"@, self.relative_from@).with_child(
            self.content_tree(),
        )
    }

    /// The element that the position is written as has the name of its
    /// kind.
    pub proof fn lemma_tree_tag(self)
        ensures
            self.tree() is Element,
            self.tree().tag() == "wp:positionV"@,
    {
    }

    /// Whatever the position holds, it is written with exactly one child,
    /// an alignment or an offset.
    pub proof fn lemma_one_child(self)
        ensures
            self.tree().children() == seq![self.content_tree()],
            self.content_tree().tag() == "wp:align"@ || self.content_tree().tag()
                == "wp:posOffset"@,
    {
        assert(self.tree().children() =~= seq![self.content_tree()]);
    }

    /// Writes the position as an element.
    pub fn to_element(&self) -> (e: XmlElement)
        ensures
            e@ == self.tree(),
    {
        let mut e = XmlElement::new("wp:positionV");
        e.push_attribute("relativeFrom", self.relative_from.clone());
        let content = match (&self.align, &self.pos_offset) {
            (Some(a), _) => XmlElement::with_text("wp:align", a.clone()),
            (None, Some(offset)) => XmlElement::with_text(
                "wp:posOffset",
                decimal_i64(*offset as i64),
            ),
            (None, None) => XmlElement::with_text("wp:posOffset", String::from_str("0")),
        };
        e.push_element(content);
        e
    }

    /// The position as XML text.
    pub fn to_xml(&self) -> (text: String)
        ensures
            text@ == tree_text(self.tree()),
    {
        self.to_element().to_text()
    }
}

/// The simple position at the origin, as every complete anchor carries it.
pub open spec fn origin_tree() -> XmlTree {
    (SimplePos { x: Some(0isize), y: Some(0isize) }).tree()
}

/// Writes the simple position at the origin.
fn origin() -> (e: XmlElement)
    ensures
        e@ == origin_tree(),
{
    (SimplePos { x: Some(0), y: Some(0) }).to_element()
}

/// A floating drawing with every element in place: distances, flags,
/// both positions, size, effect extent, frame properties, size relations
/// and the graphic.
#[derive(Debug, Clone)]
pub struct WpAnchor {
    /// The distance to the text above.
    pub dist_t: u32,
    /// The distance to the text below.
    pub dist_b: u32,
    /// The distance to the text on the left.
    pub dist_l: u32,
    /// The distance to the text on the right.
    pub dist_r: u32,
    /// Whether the simple position is used.
    pub simple_pos: bool,
    /// The place in the stacking order.
    pub relative_height: u32,
    /// Whether the drawing stands behind the text.
    pub behind_doc: bool,
    /// Whether the anchor is locked.
    pub locked: bool,
    /// Whether the drawing is laid out within a table cell.
    pub layout_in_cell: bool,
    /// Whether the drawing may overlap others.
    pub allow_overlap: bool,
    /// The horizontal position.
    pub position_h: PositionH,
    /// The vertical position.
    pub position_v: PositionV,
    /// The size.
    pub extent: Extent,
    /// The room that effects take.
    pub effect_extent: EffectExtent,
    /// The identity of the drawing.
    pub doc_pr: DocPr,
    /// The non-visual properties of the frame.
    pub graphic_frame_pr: CnvGraphicFramePr,
    /// The graphic payload.
    pub graphic: Graphic,
    /// The relative width.
    pub size_rel_h: SizeRelH,
    /// The relative height.
    pub size_rel_v: SizeRelV,
}

impl WpAnchor {
    /// The element that the anchor is written as, with its attributes.
    pub open spec fn attributes_tree(&self) -> XmlTree {
        element("wp:anchor"@)
            .with_attribute("distT"@, decimal(self.dist_t as int))
            .with_attribute("distB"@, decimal(self.dist_b as int))
            .with_attribute("distL"@, decimal(self.dist_l as int))
            .with_attribute("distR"@, decimal(self.dist_r as int))
            .with_attribute("simplePos"@, bool_literal(self.simple_pos))
            .with_attribute("relativeHeight"@, decimal(self.relative_height as int))
            .with_attribute("behindDoc"@, bool_literal(self.behind_doc))
            .with_attribute("locked"@, bool_literal(self.locked))
            .with_attribute("layoutInCell"@, bool_literal(self.layout_in_cell))
            .with_attribute("allowOverlap"@, bool_literal(self.allow_overlap))
    }

    /// Writes the anchor as an element, with its attributes.
    fn attributes_element(&self) -> (e: XmlElement)
        ensures
            e@ == self.attributes_tree(),
    {
        let mut e = XmlElement::new("wp:anchor");
        e.push_attribute("distT", decimal_i64(self.dist_t as i64));
        e.push_attribute("distB", decimal_i64(self.dist_b as i64));
        e.push_attribute("distL", decimal_i64(self.dist_l as i64));
        e.push_attribute("distR", decimal_i64(self.dist_r as i64));
        e.push_attribute("simplePos", String::from_str(serialize_bool_ooxml(self.simple_pos)));
        e.push_attribute("relativeHeight", decimal_i64(self.relative_height as i64));
        e.push_attribute("behindDoc", String::from_str(serialize_bool_ooxml(self.behind_doc)));
        e.push_attribute("locked", String::from_str(serialize_bool_ooxml(self.locked)));
        e.push_attribute(
            "layoutInCell",
            String::from_str(serialize_bool_ooxml(self.layout_in_cell)),
        );
        e.push_attribute(
            "allowOverlap",
            String::from_str(serialize_bool_ooxml(self.allow_overlap)),
        );
        e
    }

    /// The element that the anchor is written as, up to `effect_extent`.
    pub open spec fn tree_to_effect_extent(&self) -> XmlTree {
        self.attributes_tree()
            .with_child(origin_tree())
            .with_child(self.position_h.tree())
            .with_child(self.position_v.tree())
            .with_child(self.extent.tree())
            .with_child(self.effect_extent.tree())
    }

    /// Writes the anchor as an element, up to `effect_extent`.
    fn element_to_effect_extent(&self) -> (e: XmlElement)
        ensures
            e@ == self.tree_to_effect_extent(),
    {
        let mut e = self.attributes_element();
        e.push_element(origin());
        e.push_element(self.position_h.to_element());
        e.push_element(self.position_v.to_element());
        e.push_element(self.extent.to_element());
        e.push_element(self.effect_extent.to_element());
        e
    }

    /// The element that the anchor is written as.
    pub open spec fn tree(&self) -> XmlTree {
        self.tree_to_effect_extent()
            .with_child(element("wp:wrapTopAndBottom"@))
            .with_child(self.doc_pr.tree())
            .with_child(self.graphic_frame_pr.tree())
            .with_child(self.graphic.tree())
            .with_child(self.size_rel_h.tree())
            .with_child(self.size_rel_v.tree())
    }

    /// Writes the anchor as an element.
    pub fn to_element(&self) -> (e: XmlElement)
        ensures
            e@ == self.tree(),
    {
        let mut e = self.element_to_effect_extent();
        e.push_element(XmlElement::new("wp:wrapTopAndBottom"));
        e.push_element(self.doc_pr.to_element());
        e.push_element(self.graphic_frame_pr.to_element());
        e.push_element(self.graphic.to_element());
        e.push_element(self.size_rel_h.to_element());
        e.push_element(self.size_rel_v.to_element());
        e
    }

    /// Each boolean attribute of the element that the anchor is written as
    /// holds `1` or `0` and nothing else.
    pub proof fn lemma_boolean_attributes(self)
        ensures
            self.tree().attribute("simplePos"@) == Some(bool_literal(self.simple_pos)),
            self.tree().attribute("behindDoc"@) == Some(bool_literal(self.behind_doc)),
            self.tree().attribute("locked"@) == Some(bool_literal(self.locked)),
            self.tree().attribute("layoutInCell"@) == Some(bool_literal(self.layout_in_cell)),
            self.tree().attribute("allowOverlap"@) == Some(bool_literal(self.allow_overlap)),
    {
        reveal_strlit("distT");
        reveal_strlit("distB");
        reveal_strlit("distL");
        reveal_strlit("distR");
        reveal_strlit("simplePos");
        reveal_strlit("relativeHeight");
        reveal_strlit("behindDoc");
        reveal_strlit("locked");
        reveal_strlit("layoutInCell");
        reveal_strlit("allowOverlap");
        assert("distT"@.len() != "simplePos"@.len());
        assert("distB"@.len() != "simplePos"@.len());
        assert("distL"@.len() != "simplePos"@.len());
        assert("distR"@.len() != "simplePos"@.len());
        assert("relativeHeight"@.len() != "simplePos"@.len());
        assert("behindDoc"@[0] != "simplePos"@[0]);
        assert("locked"@.len() != "simplePos"@.len());
        assert("layoutInCell"@.len() != "simplePos"@.len());
        assert("allowOverlap"@.len() != "simplePos"@.len());
        assert("distT"@.len() != "behindDoc"@.len());
        assert("distB"@.len() != "behindDoc"@.len());
        assert("distL"@.len() != "behindDoc"@.len());
        assert("distR"@.len() != "behindDoc"@.len());
        assert("simplePos"@[0] != "behindDoc"@[0]);
        assert("relativeHeight"@.len() != "behindDoc"@.len());
        assert("locked"@.len() != "behindDoc"@.len());
        assert("layoutInCell"@.len() != "behindDoc"@.len());
        assert("allowOverlap"@.len() != "behindDoc"@.len());
        assert("distT"@.len() != "locked"@.len());
        assert("distB"@.len() != "locked"@.len());
        assert("distL"@.len() != "locked"@.len());
        assert("distR"@.len() != "locked"@.len());
        assert("simplePos"@.len() != "locked"@.len());
        assert("relativeHeight"@.len() != "locked"@.len());
        assert("behindDoc"@.len() != "locked"@.len());
        assert("layoutInCell"@.len() != "locked"@.len());
        assert("allowOverlap"@.len() != "locked"@.len());
        assert("distT"@.len() != "layoutInCell"@.len());
        assert("distB"@.len() != "layoutInCell"@.len());
        assert("distL"@.len() != "layoutInCell"@.len());
        assert("distR"@.len() != "layoutInCell"@.len());
        assert("simplePos"@.len() != "layoutInCell"@.len());
        assert("relativeHeight"@.len() != "layoutInCell"@.len());
        assert("behindDoc"@.len() != "layoutInCell"@.len());
        assert("locked"@.len() != "layoutInCell"@.len());
        assert("allowOverlap"@[0] != "layoutInCell"@[0]);
        assert("distT"@.len() != "allowOverlap"@.len());
        assert("distB"@.len() != "allowOverlap"@.len());
        assert("distL"@.len() != "allowOverlap"@.len());
        assert("distR"@.len() != "allowOverlap"@.len());
        assert("simplePos"@.len() != "allowOverlap"@.len());
        assert("relativeHeight"@.len() != "allowOverlap"@.len());
        assert("behindDoc"@.len() != "allowOverlap"@.len());
        assert("locked"@.len() != "allowOverlap"@.len());
        assert("layoutInCell"@[0] != "allowOverlap"@[0]);
        let t0 = element("wp:anchor"@);
        lemma_attribute_of_element("wp:anchor"@, "simplePos"@);
        lemma_attribute_of_element("wp:anchor"@, "behindDoc"@);
        lemma_attribute_of_element("wp:anchor"@, "locked"@);
        lemma_attribute_of_element("wp:anchor"@, "layoutInCell"@);
        lemma_attribute_of_element("wp:anchor"@, "allowOverlap"@);
        let t1 = t0.with_attribute("distT"@, decimal(self.dist_t as int));
        lemma_attribute_after_attribute(t0, "distT"@, decimal(self.dist_t as int), "simplePos"@);
        lemma_attribute_after_attribute(t0, "distT"@, decimal(self.dist_t as int), "behindDoc"@);
        lemma_attribute_after_attribute(t0, "distT"@, decimal(self.dist_t as int), "locked"@);
        lemma_attribute_after_attribute(t0, "distT"@, decimal(self.dist_t as int), "layoutInCell"@);
        lemma_attribute_after_attribute(t0, "distT"@, decimal(self.dist_t as int), "allowOverlap"@);
        let t2 = t1.with_attribute("distB"@, decimal(self.dist_b as int));
        lemma_attribute_after_attribute(t1, "distB"@, decimal(self.dist_b as int), "simplePos"@);
        lemma_attribute_after_attribute(t1, "distB"@, decimal(self.dist_b as int), "behindDoc"@);
        lemma_attribute_after_attribute(t1, "distB"@, decimal(self.dist_b as int), "locked"@);
        lemma_attribute_after_attribute(t1, "distB"@, decimal(self.dist_b as int), "layoutInCell"@);
        lemma_attribute_after_attribute(t1, "distB"@, decimal(self.dist_b as int), "allowOverlap"@);
        let t3 = t2.with_attribute("distL"@, decimal(self.dist_l as int));
        lemma_attribute_after_attribute(t2, "distL"@, decimal(self.dist_l as int), "simplePos"@);
        lemma_attribute_after_attribute(t2, "distL"@, decimal(self.dist_l as int), "behindDoc"@);
        lemma_attribute_after_attribute(t2, "distL"@, decimal(self.dist_l as int), "locked"@);
        lemma_attribute_after_attribute(t2, "distL"@, decimal(self.dist_l as int), "layoutInCell"@);
        lemma_attribute_after_attribute(t2, "distL"@, decimal(self.dist_l as int), "allowOverlap"@);
        let t4 = t3.with_attribute("distR"@, decimal(self.dist_r as int));
        lemma_attribute_after_attribute(t3, "distR"@, decimal(self.dist_r as int), "simplePos"@);
        lemma_attribute_after_attribute(t3, "distR"@, decimal(self.dist_r as int), "behindDoc"@);
        lemma_attribute_after_attribute(t3, "distR"@, decimal(self.dist_r as int), "locked"@);
        lemma_attribute_after_attribute(t3, "distR"@, decimal(self.dist_r as int), "layoutInCell"@);
        lemma_attribute_after_attribute(t3, "distR"@, decimal(self.dist_r as int), "allowOverlap"@);
        let t5 = t4.with_attribute("simplePos"@, bool_literal(self.simple_pos));
        lemma_attribute_after_attribute(
            t4,
            "simplePos"@,
            bool_literal(self.simple_pos),
            "simplePos"@,
        );
        lemma_attribute_after_attribute(
            t4,
            "simplePos"@,
            bool_literal(self.simple_pos),
            "behindDoc"@,
        );
        lemma_attribute_after_attribute(t4, "simplePos"@, bool_literal(self.simple_pos), "locked"@);
        lemma_attribute_after_attribute(
            t4,
            "simplePos"@,
            bool_literal(self.simple_pos),
            "layoutInCell"@,
        );
        lemma_attribute_after_attribute(
            t4,
            "simplePos"@,
            bool_literal(self.simple_pos),
            "allowOverlap"@,
        );
        let t6 = t5.with_attribute("relativeHeight"@, decimal(self.relative_height as int));
        lemma_attribute_after_attribute(
            t5,
            "relativeHeight"@,
            decimal(self.relative_height as int),
            "simplePos"@,
        );
        lemma_attribute_after_attribute(
            t5,
            "relativeHeight"@,
            decimal(self.relative_height as int),
            "behindDoc"@,
        );
        lemma_attribute_after_attribute(
            t5,
            "relativeHeight"@,
            decimal(self.relative_height as int),
            "locked"@,
        );
        lemma_attribute_after_attribute(
            t5,
            "relativeHeight"@,
            decimal(self.relative_height as int),
            "layoutInCell"@,
        );
        lemma_attribute_after_attribute(
            t5,
            "relativeHeight"@,
            decimal(self.relative_height as int),
            "allowOverlap"@,
        );
        let t7 = t6.with_attribute("behindDoc"@, bool_literal(self.behind_doc));
        lemma_attribute_after_attribute(
            t6,
            "behindDoc"@,
            bool_literal(self.behind_doc),
            "simplePos"@,
        );
        lemma_attribute_after_attribute(
            t6,
            "behindDoc"@,
            bool_literal(self.behind_doc),
            "behindDoc"@,
        );
        lemma_attribute_after_attribute(t6, "behindDoc"@, bool_literal(self.behind_doc), "locked"@);
        lemma_attribute_after_attribute(
            t6,
            "behindDoc"@,
            bool_literal(self.behind_doc),
            "layoutInCell"@,
        );
        lemma_attribute_after_attribute(
            t6,
            "behindDoc"@,
            bool_literal(self.behind_doc),
            "allowOverlap"@,
        );
        let t8 = t7.with_attribute("locked"@, bool_literal(self.locked));
        lemma_attribute_after_attribute(t7, "locked"@, bool_literal(self.locked), "simplePos"@);
        lemma_attribute_after_attribute(t7, "locked"@, bool_literal(self.locked), "behindDoc"@);
        lemma_attribute_after_attribute(t7, "locked"@, bool_literal(self.locked), "locked"@);
        lemma_attribute_after_attribute(t7, "locked"@, bool_literal(self.locked), "layoutInCell"@);
        lemma_attribute_after_attribute(t7, "locked"@, bool_literal(self.locked), "allowOverlap"@);
        let t9 = t8.with_attribute("layoutInCell"@, bool_literal(self.layout_in_cell));
        lemma_attribute_after_attribute(
            t8,
            "layoutInCell"@,
            bool_literal(self.layout_in_cell),
            "simplePos"@,
        );
        lemma_attribute_after_attribute(
            t8,
            "layoutInCell"@,
            bool_literal(self.layout_in_cell),
            "behindDoc"@,
        );
        lemma_attribute_after_attribute(
            t8,
            "layoutInCell"@,
            bool_literal(self.layout_in_cell),
            "locked"@,
        );
        lemma_attribute_after_attribute(
            t8,
            "layoutInCell"@,
            bool_literal(self.layout_in_cell),
            "layoutInCell"@,
        );
        lemma_attribute_after_attribute(
            t8,
            "layoutInCell"@,
            bool_literal(self.layout_in_cell),
            "allowOverlap"@,
        );
        let t10 = t9.with_attribute("allowOverlap"@, bool_literal(self.allow_overlap));
        lemma_attribute_after_attribute(
            t9,
            "allowOverlap"@,
            bool_literal(self.allow_overlap),
            "simplePos"@,
        );
        lemma_attribute_after_attribute(
            t9,
            "allowOverlap"@,
            bool_literal(self.allow_overlap),
            "behindDoc"@,
        );
        lemma_attribute_after_attribute(
            t9,
            "allowOverlap"@,
            bool_literal(self.allow_overlap),
            "locked"@,
        );
        lemma_attribute_after_attribute(
            t9,
            "allowOverlap"@,
            bool_literal(self.allow_overlap),
            "layoutInCell"@,
        );
        lemma_attribute_after_attribute(
            t9,
            "allowOverlap"@,
            bool_literal(self.allow_overlap),
            "allowOverlap"@,
        );
        let t11 = t10.with_child(origin_tree());
        assert(t11.attribute("simplePos"@) == t10.attribute("simplePos"@));
        assert(t11.attribute("behindDoc"@) == t10.attribute("behindDoc"@));
        assert(t11.attribute("locked"@) == t10.attribute("locked"@));
        assert(t11.attribute("layoutInCell"@) == t10.attribute("layoutInCell"@));
        assert(t11.attribute("allowOverlap"@) == t10.attribute("allowOverlap"@));
        let t12 = t11.with_child(self.position_h.tree());
        assert(t12.attribute("simplePos"@) == t11.attribute("simplePos"@));
        assert(t12.attribute("behindDoc"@) == t11.attribute("behindDoc"@));
        assert(t12.attribute("locked"@) == t11.attribute("locked"@));
        assert(t12.attribute("layoutInCell"@) == t11.attribute("layoutInCell"@));
        assert(t12.attribute("allowOverlap"@) == t11.attribute("allowOverlap"@));
        let t13 = t12.with_child(self.position_v.tree());
        assert(t13.attribute("simplePos"@) == t12.attribute("simplePos"@));
        assert(t13.attribute("behindDoc"@) == t12.attribute("behindDoc"@));
        assert(t13.attribute("locked"@) == t12.attribute("locked"@));
        assert(t13.attribute("layoutInCell"@) == t12.attribute("layoutInCell"@));
        assert(t13.attribute("allowOverlap"@) == t12.attribute("allowOverlap"@));
        let t14 = t13.with_child(self.extent.tree());
        assert(t14.attribute("simplePos"@) == t13.attribute("simplePos"@));
        assert(t14.attribute("behindDoc"@) == t13.attribute("behindDoc"@));
        assert(t14.attribute("locked"@) == t13.attribute("locked"@));
        assert(t14.attribute("layoutInCell"@) == t13.attribute("layoutInCell"@));
        assert(t14.attribute("allowOverlap"@) == t13.attribute("allowOverlap"@));
        let t15 = t14.with_child(self.effect_extent.tree());
        assert(t15.attribute("simplePos"@) == t14.attribute("simplePos"@));
        assert(t15.attribute("behindDoc"@) == t14.attribute("behindDoc"@));
        assert(t15.attribute("locked"@) == t14.attribute("locked"@));
        assert(t15.attribute("layoutInCell"@) == t14.attribute("layoutInCell"@));
        assert(t15.attribute("allowOverlap"@) == t14.attribute("allowOverlap"@));
        let t16 = t15.with_child(element("wp:wrapTopAndBottom"@));
        assert(t16.attribute("simplePos"@) == t15.attribute("simplePos"@));
        assert(t16.attribute("behindDoc"@) == t15.attribute("behindDoc"@));
        assert(t16.attribute("locked"@) == t15.attribute("locked"@));
        assert(t16.attribute("layoutInCell"@) == t15.attribute("layoutInCell"@));
        assert(t16.attribute("allowOverlap"@) == t15.attribute("allowOverlap"@));
        let t17 = t16.with_child(self.doc_pr.tree());
        assert(t17.attribute("simplePos"@) == t16.attribute("simplePos"@));
        assert(t17.attribute("behindDoc"@) == t16.attribute("behindDoc"@));
        assert(t17.attribute("locked"@) == t16.attribute("locked"@));
        assert(t17.attribute("layoutInCell"@) == t16.attribute("layoutInCell"@));
        assert(t17.attribute("allowOverlap"@) == t16.attribute("allowOverlap"@));
        let t18 = t17.with_child(self.graphic_frame_pr.tree());
        assert(t18.attribute("simplePos"@) == t17.attribute("simplePos"@));
        assert(t18.attribute("behindDoc"@) == t17.attribute("behindDoc"@));
        assert(t18.attribute("locked"@) == t17.attribute("locked"@));
        assert(t18.attribute("layoutInCell"@) == t17.attribute("layoutInCell"@));
        assert(t18.attribute("allowOverlap"@) == t17.attribute("allowOverlap"@));
        let t19 = t18.with_child(self.graphic.tree());
        assert(t19.attribute("simplePos"@) == t18.attribute("simplePos"@));
        assert(t19.attribute("behindDoc"@) == t18.attribute("behindDoc"@));
        assert(t19.attribute("locked"@) == t18.attribute("locked"@));
        assert(t19.attribute("layoutInCell"@) == t18.attribute("layoutInCell"@));
        assert(t19.attribute("allowOverlap"@) == t18.attribute("allowOverlap"@));
        let t20 = t19.with_child(self.size_rel_h.tree());
        assert(t20.attribute("simplePos"@) == t19.attribute("simplePos"@));
        assert(t20.attribute("behindDoc"@) == t19.attribute("behindDoc"@));
        assert(t20.attribute("locked"@) == t19.attribute("locked"@));
        assert(t20.attribute("layoutInCell"@) == t19.attribute("layoutInCell"@));
        assert(t20.attribute("allowOverlap"@) == t19.attribute("allowOverlap"@));
        let t21 = t20.with_child(self.size_rel_v.tree());
        assert(t21.attribute("simplePos"@) == t20.attribute("simplePos"@));
        assert(t21.attribute("behindDoc"@) == t20.attribute("behindDoc"@));
        assert(t21.attribute("locked"@) == t20.attribute("locked"@));
        assert(t21.attribute("layoutInCell"@) == t20.attribute("layoutInCell"@));
        assert(t21.attribute("allowOverlap"@) == t20.attribute("allowOverlap"@));
        assert(t21 == self.tree());
    }

    /// Whatever the value holds, each of these parts is found in the element
    /// that it is written as, under its name.
    pub proof fn lemma_children(self)
        ensures
            self.tree().child("wp:extent"@) == Some(self.extent.tree()),
            self.tree().child("wp:docPr"@) == Some(self.doc_pr.tree()),
            self.tree().child("a:graphic"@) == Some(self.graphic.tree()),
    {
        reveal_strlit("wp:simplePos");
        reveal_strlit("wp:positionH");
        reveal_strlit("wp:positionV");
        reveal_strlit("wp:extent");
        reveal_strlit("wp:effectExtent");
        reveal_strlit("wp:wrapTopAndBottom");
        reveal_strlit("wp:docPr");
        reveal_strlit("wp:cNvGraphicFramePr");
        reveal_strlit("a:graphic");
        reveal_strlit("wp:sizeRelH");
        reveal_strlit("wp:sizeRelV");
        assert("wp:simplePos"@.len() != "wp:extent"@.len());
        assert("wp:positionH"@.len() != "wp:extent"@.len());
        assert("wp:positionV"@.len() != "wp:extent"@.len());
        assert("wp:effectExtent"@.len() != "wp:extent"@.len());
        assert("wp:wrapTopAndBottom"@.len() != "wp:extent"@.len());
        assert("wp:docPr"@.len() != "wp:extent"@.len());
        assert("wp:cNvGraphicFramePr"@.len() != "wp:extent"@.len());
        assert("a:graphic"@[0] != "wp:extent"@[0]);
        assert("wp:sizeRelH"@.len() != "wp:extent"@.len());
        assert("wp:sizeRelV"@.len() != "wp:extent"@.len());
        assert("wp:simplePos"@.len() != "wp:docPr"@.len());
        assert("wp:positionH"@.len() != "wp:docPr"@.len());
        assert("wp:positionV"@.len() != "wp:docPr"@.len());
        assert("wp:extent"@.len() != "wp:docPr"@.len());
        assert("wp:effectExtent"@.len() != "wp:docPr"@.len());
        assert("wp:wrapTopAndBottom"@.len() != "wp:docPr"@.len());
        assert("wp:cNvGraphicFramePr"@.len() != "wp:docPr"@.len());
        assert("a:graphic"@.len() != "wp:docPr"@.len());
        assert("wp:sizeRelH"@.len() != "wp:docPr"@.len());
        assert("wp:sizeRelV"@.len() != "wp:docPr"@.len());
        assert("wp:simplePos"@.len() != "a:graphic"@.len());
        assert("wp:positionH"@.len() != "a:graphic"@.len());
        assert("wp:positionV"@.len() != "a:graphic"@.len());
        assert("wp:extent"@[0] != "a:graphic"@[0]);
        assert("wp:effectExtent"@.len() != "a:graphic"@.len());
        assert("wp:wrapTopAndBottom"@.len() != "a:graphic"@.len());
        assert("wp:docPr"@.len() != "a:graphic"@.len());
        assert("wp:cNvGraphicFramePr"@.len() != "a:graphic"@.len());
        assert("wp:sizeRelH"@.len() != "a:graphic"@.len());
        assert("wp:sizeRelV"@.len() != "a:graphic"@.len());
        let t0 = element("wp:anchor"@);
        let t1 = t0.with_attribute("distT"@, decimal(self.dist_t as int));
        assert(t1.child("wp:extent"@) == t0.child("wp:extent"@));
        assert(t1.child("wp:docPr"@) == t0.child("wp:docPr"@));
        assert(t1.child("a:graphic"@) == t0.child("a:graphic"@));
        let t2 = t1.with_attribute("distB"@, decimal(self.dist_b as int));
        assert(t2.child("wp:extent"@) == t1.child("wp:extent"@));
        assert(t2.child("wp:docPr"@) == t1.child("wp:docPr"@));
        assert(t2.child("a:graphic"@) == t1.child("a:graphic"@));
        let t3 = t2.with_attribute("distL"@, decimal(self.dist_l as int));
        assert(t3.child("wp:extent"@) == t2.child("wp:extent"@));
        assert(t3.child("wp:docPr"@) == t2.child("wp:docPr"@));
        assert(t3.child("a:graphic"@) == t2.child("a:graphic"@));
        let t4 = t3.with_attribute("distR"@, decimal(self.dist_r as int));
        assert(t4.child("wp:extent"@) == t3.child("wp:extent"@));
        assert(t4.child("wp:docPr"@) == t3.child("wp:docPr"@));
        assert(t4.child("a:graphic"@) == t3.child("a:graphic"@));
        let t5 = t4.with_attribute("simplePos"@, bool_literal(self.simple_pos));
        assert(t5.child("wp:extent"@) == t4.child("wp:extent"@));
        assert(t5.child("wp:docPr"@) == t4.child("wp:docPr"@));
        assert(t5.child("a:graphic"@) == t4.child("a:graphic"@));
        let t6 = t5.with_attribute("relativeHeight"@, decimal(self.relative_height as int));
        assert(t6.child("wp:extent"@) == t5.child("wp:extent"@));
        assert(t6.child("wp:docPr"@) == t5.child("wp:docPr"@));
        assert(t6.child("a:graphic"@) == t5.child("a:graphic"@));
        let t7 = t6.with_attribute("behindDoc"@, bool_literal(self.behind_doc));
        assert(t7.child("wp:extent"@) == t6.child("wp:extent"@));
        assert(t7.child("wp:docPr"@) == t6.child("wp:docPr"@));
        assert(t7.child("a:graphic"@) == t6.child("a:graphic"@));
        let t8 = t7.with_attribute("locked"@, bool_literal(self.locked));
        assert(t8.child("wp:extent"@) == t7.child("wp:extent"@));
        assert(t8.child("wp:docPr"@) == t7.child("wp:docPr"@));
        assert(t8.child("a:graphic"@) == t7.child("a:graphic"@));
        let t9 = t8.with_attribute("layoutInCell"@, bool_literal(self.layout_in_cell));
        assert(t9.child("wp:extent"@) == t8.child("wp:extent"@));
        assert(t9.child("wp:docPr"@) == t8.child("wp:docPr"@));
        assert(t9.child("a:graphic"@) == t8.child("a:graphic"@));
        let t10 = t9.with_attribute("allowOverlap"@, bool_literal(self.allow_overlap));
        assert(t10.child("wp:extent"@) == t9.child("wp:extent"@));
        assert(t10.child("wp:docPr"@) == t9.child("wp:docPr"@));
        assert(t10.child("a:graphic"@) == t9.child("a:graphic"@));
        let t11 = t10.with_child(origin_tree());
        lemma_child_after_child(t10, origin_tree(), "wp:extent"@);
        lemma_child_after_child(t10, origin_tree(), "wp:docPr"@);
        lemma_child_after_child(t10, origin_tree(), "a:graphic"@);
        let t12 = t11.with_child(self.position_h.tree());
        self.position_h.lemma_tree_tag();
        lemma_child_after_child(t11, self.position_h.tree(), "wp:extent"@);
        lemma_child_after_child(t11, self.position_h.tree(), "wp:docPr"@);
        lemma_child_after_child(t11, self.position_h.tree(), "a:graphic"@);
        let t13 = t12.with_child(self.position_v.tree());
        self.position_v.lemma_tree_tag();
        lemma_child_after_child(t12, self.position_v.tree(), "wp:extent"@);
        lemma_child_after_child(t12, self.position_v.tree(), "wp:docPr"@);
        lemma_child_after_child(t12, self.position_v.tree(), "a:graphic"@);
        let t14 = t13.with_child(self.extent.tree());
        self.extent.lemma_tree_tag();
        lemma_child_after_child(t13, self.extent.tree(), "wp:extent"@);
        lemma_child_after_child(t13, self.extent.tree(), "wp:docPr"@);
        lemma_child_after_child(t13, self.extent.tree(), "a:graphic"@);
        let t15 = t14.with_child(self.effect_extent.tree());
        self.effect_extent.lemma_tree_tag();
        lemma_child_after_child(t14, self.effect_extent.tree(), "wp:extent"@);
        lemma_child_after_child(t14, self.effect_extent.tree(), "wp:docPr"@);
        lemma_child_after_child(t14, self.effect_extent.tree(), "a:graphic"@);
        let t16 = t15.with_child(element("wp:wrapTopAndBottom"@));
        lemma_child_after_child(t15, element("wp:wrapTopAndBottom"@), "wp:extent"@);
        lemma_child_after_child(t15, element("wp:wrapTopAndBottom"@), "wp:docPr"@);
        lemma_child_after_child(t15, element("wp:wrapTopAndBottom"@), "a:graphic"@);
        let t17 = t16.with_child(self.doc_pr.tree());
        self.doc_pr.lemma_tree_tag();
        lemma_child_after_child(t16, self.doc_pr.tree(), "wp:extent"@);
        lemma_child_after_child(t16, self.doc_pr.tree(), "wp:docPr"@);
        lemma_child_after_child(t16, self.doc_pr.tree(), "a:graphic"@);
        let t18 = t17.with_child(self.graphic_frame_pr.tree());
        self.graphic_frame_pr.lemma_tree_tag();
        lemma_child_after_child(t17, self.graphic_frame_pr.tree(), "wp:extent"@);
        lemma_child_after_child(t17, self.graphic_frame_pr.tree(), "wp:docPr"@);
        lemma_child_after_child(t17, self.graphic_frame_pr.tree(), "a:graphic"@);
        let t19 = t18.with_child(self.graphic.tree());
        self.graphic.lemma_tree_tag();
        lemma_child_after_child(t18, self.graphic.tree(), "wp:extent"@);
        lemma_child_after_child(t18, self.graphic.tree(), "wp:docPr"@);
        lemma_child_after_child(t18, self.graphic.tree(), "a:graphic"@);
        let t20 = t19.with_child(self.size_rel_h.tree());
        self.size_rel_h.lemma_tree_tag();
        lemma_child_after_child(t19, self.size_rel_h.tree(), "wp:extent"@);
        lemma_child_after_child(t19, self.size_rel_h.tree(), "wp:docPr"@);
        lemma_child_after_child(t19, self.size_rel_h.tree(), "a:graphic"@);
        let t21 = t20.with_child(self.size_rel_v.tree());
        self.size_rel_v.lemma_tree_tag();
        lemma_child_after_child(t20, self.size_rel_v.tree(), "wp:extent"@);
        lemma_child_after_child(t20, self.size_rel_v.tree(), "wp:docPr"@);
        lemma_child_after_child(t20, self.size_rel_v.tree(), "a:graphic"@);
        assert(t21 == self.tree());
    }

    /// Whether both positions carry exactly one of alignment and offset.
    pub open spec fn is_valid(&self) -> bool {
        self.position_h.is_valid() && self.position_v.is_valid()
    }

    /// What is wrong with the anchor, if anything: what is wrong with the
    /// horizontal position, else what is wrong with the vertical one.
    pub open spec fn defect(&self) -> Option<DefectModel> {
        match self.position_h.defect() {
            Some(defect) => Some(defect),
            None => self.position_v.defect(),
        }
    }

    /// Checks the horizontal position, then the vertical one, and reports
    /// what is wrong with the first that fails, as that position's own
    /// check does.
    pub fn validate(&self) -> (r: Result<(), DrawingMLError>)
        ensures
            r is Ok <==> self.is_valid(),
            match self.defect() {
                Some(defect) => r matches Err(e) && e@ == defect,
                None => r is Ok,
            },
    {
        match self.position_h.validate() {
            Ok(()) => self.position_v.validate(),
            Err(e) => Err(e),
        }
    }

    /// An anchor around the given size, identity and graphic in which every
    /// other element has a value that is safe to write.
    pub fn safe_default(extent: Extent, doc_pr: DocPr, graphic: Graphic) -> (anchor: WpAnchor)
        ensures
            anchor.extent == extent,
            anchor.doc_pr == doc_pr,
            anchor.graphic == graphic,
            anchor.dist_t == 0 && anchor.dist_b == 0,
            anchor.dist_l == 114300 && anchor.dist_r == 114300,
            !anchor.simple_pos && !anchor.behind_doc && !anchor.locked,
            anchor.layout_in_cell && anchor.allow_overlap,
            anchor.relative_height == 251659264,
            anchor.effect_extent == (EffectExtent { l: 0, t: 0, r: 0, b: 0 }),
            anchor.graphic_frame_pr.graphic_frame_locks.no_change_aspect,
            anchor.size_rel_h.is_unset() && anchor.size_rel_v.is_unset(),
            anchor.position_h.relative_from@ == "column"@,
            anchor.position_h.align matches Some(a) && a@ == "center"@,
            anchor.position_h.pos_offset is None,
            anchor.position_v.relative_from@ == "paragraph"@,
            anchor.position_v.align is None,
            anchor.position_v.pos_offset == Some(0i32),
            anchor.is_valid(),
    {
        WpAnchor {
            dist_t: 0,
            dist_b: 0,
            dist_l: 114300,
            dist_r: 114300,
            simple_pos: false,
            relative_height: 251659264,
            behind_doc: false,
            locked: false,
            layout_in_cell: true,
            allow_overlap: true,
            position_h: PositionH::safe_default(),
            position_v: PositionV::safe_default(),
            effect_extent: EffectExtent { l: 0, t: 0, r: 0, b: 0 },
            graphic_frame_pr: CnvGraphicFramePr::default(),
            size_rel_h: SizeRelH::default(),
            size_rel_v: SizeRelV::default(),
            extent,
            doc_pr,
            graphic,
        }
    }

    /// The anchor as XML text, if it is valid; the error of
    /// [`WpAnchor::validate`] otherwise.
    pub fn to_xml(&self) -> (r: Result<String, DrawingMLError>)
        ensures
            r is Ok <==> self.is_valid(),
            match self.defect() {
                Some(defect) => r matches Err(e) && e@ == defect,
                None => r matches Ok(text) && text@ == tree_text(self.tree()),
            },
    {
        match self.validate() {
            Ok(()) => Ok(self.to_element().to_text()),
            Err(e) => Err(e),
        }
    }
}
} // verus!
