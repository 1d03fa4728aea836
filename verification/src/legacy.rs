//! The frozen schema of the first two on-disk formats, and its migration.
//!
//! These types describe bytes that are already on users' disks, so they never
//! follow the live types of [`crate::scene`]: what was written through them is
//! read through them and then migrated. Every field is carried over unchanged;
//! what the frozen schema did not have (a text style's line and letter spacing)
//! is left unset.

use indexmap::IndexMap;
use vstd::prelude::*;

use crate::ordered;
use crate::scene::{
    BlobRef, FloatBits, FontPrediction, ImageData, ImageDataPatch, ImageRole, MaskData,
    MaskDataPatch, MaskRole, Node, NodeDataPatch, NodeId, NodeKind, NodePatch, Op, Page, PageId,
    PagePatch, ProjectMeta, ProjectMetaPatch, ProjectStyle, Scene, TextAlign, TextData,
    TextDataPatch, TextDirection, TextShaderEffect, TextStrokeStyle, TextStyle, Timestamp,
    Transform,
};

verus! {

#[derive(Debug)]
pub struct LegacySceneV0 {
    pub project: LegacyProjectMetaV0,
    pub pages: IndexMap<PageId, LegacyPageV0>,
}

#[derive(Debug)]
pub struct LegacyProjectMetaV0 {
    pub name: String,
    pub created_at: Timestamp,
    pub updated_at: Timestamp,
    pub style: LegacyProjectStyleV0,
}

#[derive(Debug)]
pub struct LegacyProjectStyleV0 {
    pub default_font: Option<String>,
}

#[derive(Debug)]
pub struct LegacyPageV0 {
    pub id: PageId,
    pub name: String,
    pub width: u32,
    pub height: u32,
    pub nodes: IndexMap<NodeId, LegacyNodeV0>,
}

#[derive(Debug)]
pub struct LegacyNodeV0 {
    pub id: NodeId,
    pub transform: LegacyTransformV0,
    pub visible: bool,
    pub kind: LegacyNodeKindV0,
}

#[derive(Debug)]
pub enum LegacyNodeKindV0 {
    Image(LegacyImageDataV0),
    Text(LegacyTextDataV0),
    Mask(LegacyMaskDataV0),
}

#[derive(Debug)]
pub struct LegacyImageDataV0 {
    pub role: ImageRole,
    pub blob: BlobRef,
    pub opacity: FloatBits,
    pub natural_width: u32,
    pub natural_height: u32,
    pub name: Option<String>,
}

#[derive(Debug)]
pub struct LegacyMaskDataV0 {
    pub role: MaskRole,
    pub blob: BlobRef,
}

#[derive(Debug)]
pub struct LegacyTextDataV0 {
    pub confidence: FloatBits,
    pub source_lang: Option<String>,
    pub source_direction: Option<TextDirection>,
    pub rendered_direction: Option<TextDirection>,
    pub line_polygons: Option<Vec<[[FloatBits; 2]; 4]>>,
    pub rotation_deg: Option<FloatBits>,
    pub detected_font_size_px: Option<FloatBits>,
    pub detector: Option<String>,
    pub text: Option<String>,
    pub translation: Option<String>,
    pub style: Option<LegacyTextStyleV0>,
    pub font_prediction: Option<FontPrediction>,
    pub sprite: Option<BlobRef>,
    pub sprite_transform: Option<LegacyTransformV0>,
    pub lock_layout_box: bool,
}

#[derive(Clone, Copy, Debug, PartialEq, Eq, Structural)]
pub struct LegacyTransformV0 {
    pub x: FloatBits,
    pub y: FloatBits,
    pub width: FloatBits,
    pub height: FloatBits,
    pub rotation_deg: FloatBits,
}

#[derive(Debug)]
pub struct LegacyTextStyleV0 {
    pub font_families: Vec<String>,
    pub font_size: Option<FloatBits>,
    pub color: [u8; 4],
    pub effect: Option<LegacyTextShaderEffectV0>,
    pub stroke: Option<LegacyTextStrokeStyleV0>,
    pub text_align: Option<LegacyTextAlignV0>,
}

#[derive(Clone, Copy, Debug, PartialEq, Eq, Structural)]
pub struct LegacyTextShaderEffectV0 {
    pub italic: bool,
    pub bold: bool,
}

#[derive(Debug)]
pub struct LegacyTextStrokeStyleV0 {
    pub enabled: bool,
    pub color: [u8; 4],
    pub width_px: Option<FloatBits>,
}

#[derive(Clone, Copy, Debug, PartialEq, Eq, Structural)]
pub enum LegacyTextAlignV0 {
    Left,
    Center,
    Right,
}

#[allow(inconsistent_fields)]
#[derive(Debug)]
pub enum LegacyOpV0 {
    UpdateProjectMeta { patch: LegacyProjectMetaPatchV0, prev: LegacyProjectMetaPatchV0 },
    AddPage { page: LegacyPageV0, at: usize },
    RemovePage { id: PageId, prev_page: LegacyPageV0, prev_index: usize },
    UpdatePage { id: PageId, patch: LegacyPagePatchV0, prev: LegacyPagePatchV0 },
    ReorderPages { order: Vec<PageId>, prev_order: Vec<PageId> },
    AddNode { page: PageId, node: LegacyNodeV0, at: usize },
    RemoveNode { page: PageId, id: NodeId, prev_node: LegacyNodeV0, prev_index: usize },
    UpdateNode { page: PageId, id: NodeId, patch: LegacyNodePatchV0, prev: LegacyNodePatchV0 },
    ReorderNodes { page: PageId, order: Vec<NodeId>, prev_order: Vec<NodeId> },
    Batch { ops: Vec<LegacyOpV0>, label: String },
}

#[derive(Debug)]
pub struct LegacyProjectMetaPatchV0 {
    pub name: Option<String>,
    pub style: Option<LegacyProjectStyleV0>,
    pub updated_at: Option<Timestamp>,
}

#[derive(Debug)]
pub struct LegacyPagePatchV0 {
    pub name: Option<String>,
    pub width: Option<u32>,
    pub height: Option<u32>,
}

#[derive(Debug)]
pub struct LegacyNodePatchV0 {
    pub transform: Option<LegacyTransformV0>,
    pub visible: Option<bool>,
    pub data: Option<LegacyNodeDataPatchV0>,
}

#[derive(Debug)]
pub enum LegacyNodeDataPatchV0 {
    Text(LegacyTextDataPatchV0),
    Image(LegacyImageDataPatchV0),
    Mask(LegacyMaskDataPatchV0),
}

#[derive(Debug)]
pub struct LegacyTextDataPatchV0 {
    pub confidence: Option<FloatBits>,
    pub source_lang: Option<Option<String>>,
    pub source_direction: Option<Option<TextDirection>>,
    pub rendered_direction: Option<Option<TextDirection>>,
    pub line_polygons: Option<Option<Vec<[[FloatBits; 2]; 4]>>>,
    pub rotation_deg: Option<Option<FloatBits>>,
    pub detected_font_size_px: Option<Option<FloatBits>>,
    pub detector: Option<Option<String>>,
    pub text: Option<Option<String>>,
    pub translation: Option<Option<String>>,
    pub style: Option<Option<LegacyTextStyleV0>>,
    pub font_prediction: Option<Option<FontPrediction>>,
    pub sprite: Option<Option<BlobRef>>,
    pub sprite_transform: Option<Option<LegacyTransformV0>>,
    pub lock_layout_box: Option<bool>,
}

#[derive(Debug)]
pub struct LegacyImageDataPatchV0 {
    pub blob: Option<BlobRef>,
    pub opacity: Option<FloatBits>,
    pub name: Option<Option<String>>,
    pub natural_width: Option<u32>,
    pub natural_height: Option<u32>,
}

#[derive(Debug)]
pub struct LegacyMaskDataPatchV0 {
    pub blob: Option<BlobRef>,
}

impl LegacyProjectMetaV0 {
    pub open spec fn migrated(self) -> ProjectMeta {
        ProjectMeta {
            name: self.name,
            created_at: self.created_at,
            updated_at: self.updated_at,
            style: self.style.migrated(),
        }
    }
}

impl From<LegacyProjectMetaV0> for ProjectMeta {
    fn from(v: LegacyProjectMetaV0) -> (r: ProjectMeta) {
        ProjectMeta {
            name: v.name,
            created_at: v.created_at,
            updated_at: v.updated_at,
            style: ProjectStyle::from(v.style),
        }
    }
}

impl vstd::std_specs::convert::FromSpecImpl<LegacyProjectMetaV0> for ProjectMeta {
    open spec fn obeys_from_spec() -> bool {
        true
    }

    open spec fn from_spec(v: LegacyProjectMetaV0) -> ProjectMeta {
        v.migrated()
    }
}

impl LegacyProjectStyleV0 {
    pub open spec fn migrated(self) -> ProjectStyle {
        ProjectStyle {
            default_font: self.default_font,
        }
    }
}

impl From<LegacyProjectStyleV0> for ProjectStyle {
    fn from(v: LegacyProjectStyleV0) -> (r: ProjectStyle) {
        ProjectStyle {
            default_font: v.default_font,
        }
    }
}

impl vstd::std_specs::convert::FromSpecImpl<LegacyProjectStyleV0> for ProjectStyle {
    open spec fn obeys_from_spec() -> bool {
        true
    }

    open spec fn from_spec(v: LegacyProjectStyleV0) -> ProjectStyle {
        v.migrated()
    }
}

impl LegacyNodeV0 {
    pub open spec fn migrated(self) -> Node {
        Node {
            id: self.id,
            transform: self.transform.migrated(),
            visible: self.visible,
            kind: self.kind.migrated(),
        }
    }
}

impl From<LegacyNodeV0> for Node {
    fn from(v: LegacyNodeV0) -> (r: Node) {
        Node {
            id: v.id,
            transform: Transform::from(v.transform),
            visible: v.visible,
            kind: NodeKind::from(v.kind),
        }
    }
}

impl vstd::std_specs::convert::FromSpecImpl<LegacyNodeV0> for Node {
    open spec fn obeys_from_spec() -> bool {
        true
    }

    open spec fn from_spec(v: LegacyNodeV0) -> Node {
        v.migrated()
    }
}

impl LegacyNodeKindV0 {
    pub open spec fn migrated(self) -> NodeKind {
        match self {
            LegacyNodeKindV0::Image(data) => NodeKind::Image(data.migrated()),
            LegacyNodeKindV0::Text(data) => NodeKind::Text(data.migrated()),
            LegacyNodeKindV0::Mask(data) => NodeKind::Mask(data.migrated()),
        }
    }
}

impl From<LegacyNodeKindV0> for NodeKind {
    fn from(v: LegacyNodeKindV0) -> (r: NodeKind) {
        match v {
            LegacyNodeKindV0::Image(data) => NodeKind::Image(ImageData::from(data)),
            LegacyNodeKindV0::Text(data) => NodeKind::Text(TextData::from(data)),
            LegacyNodeKindV0::Mask(data) => NodeKind::Mask(MaskData::from(data)),
        }
    }
}

impl vstd::std_specs::convert::FromSpecImpl<LegacyNodeKindV0> for NodeKind {
    open spec fn obeys_from_spec() -> bool {
        true
    }

    open spec fn from_spec(v: LegacyNodeKindV0) -> NodeKind {
        v.migrated()
    }
}

impl LegacyImageDataV0 {
    pub open spec fn migrated(self) -> ImageData {
        ImageData {
            role: self.role,
            blob: self.blob,
            opacity: self.opacity,
            natural_width: self.natural_width,
            natural_height: self.natural_height,
            name: self.name,
        }
    }
}

impl From<LegacyImageDataV0> for ImageData {
    fn from(v: LegacyImageDataV0) -> (r: ImageData) {
        ImageData {
            role: v.role,
            blob: v.blob,
            opacity: v.opacity,
            natural_width: v.natural_width,
            natural_height: v.natural_height,
            name: v.name,
        }
    }
}

impl vstd::std_specs::convert::FromSpecImpl<LegacyImageDataV0> for ImageData {
    open spec fn obeys_from_spec() -> bool {
        true
    }

    open spec fn from_spec(v: LegacyImageDataV0) -> ImageData {
        v.migrated()
    }
}

impl LegacyMaskDataV0 {
    pub open spec fn migrated(self) -> MaskData {
        MaskData {
            role: self.role,
            blob: self.blob,
        }
    }
}

impl From<LegacyMaskDataV0> for MaskData {
    fn from(v: LegacyMaskDataV0) -> (r: MaskData) {
        MaskData {
            role: v.role,
            blob: v.blob,
        }
    }
}

impl vstd::std_specs::convert::FromSpecImpl<LegacyMaskDataV0> for MaskData {
    open spec fn obeys_from_spec() -> bool {
        true
    }

    open spec fn from_spec(v: LegacyMaskDataV0) -> MaskData {
        v.migrated()
    }
}

impl LegacyTextDataV0 {
    pub open spec fn migrated(self) -> TextData {
        TextData {
            confidence: self.confidence,
            source_lang: self.source_lang,
            source_direction: self.source_direction,
            rendered_direction: self.rendered_direction,
            line_polygons: self.line_polygons,
            rotation_deg: self.rotation_deg,
            detected_font_size_px: self.detected_font_size_px,
            detector: self.detector,
            text: self.text,
            translation: self.translation,
            style: match self.style {
                Some(value) => Some(value.migrated()),
                None => None,
            },
            font_prediction: self.font_prediction,
            sprite: self.sprite,
            sprite_transform: match self.sprite_transform {
                Some(value) => Some(value.migrated()),
                None => None,
            },
            lock_layout_box: self.lock_layout_box,
        }
    }
}

impl From<LegacyTextDataV0> for TextData {
    fn from(v: LegacyTextDataV0) -> (r: TextData) {
        TextData {
            confidence: v.confidence,
            source_lang: v.source_lang,
            source_direction: v.source_direction,
            rendered_direction: v.rendered_direction,
            line_polygons: v.line_polygons,
            rotation_deg: v.rotation_deg,
            detected_font_size_px: v.detected_font_size_px,
            detector: v.detector,
            text: v.text,
            translation: v.translation,
            style: match v.style {
                Some(value) => Some(TextStyle::from(value)),
                None => None,
            },
            font_prediction: v.font_prediction,
            sprite: v.sprite,
            sprite_transform: match v.sprite_transform {
                Some(value) => Some(Transform::from(value)),
                None => None,
            },
            lock_layout_box: v.lock_layout_box,
        }
    }
}

impl vstd::std_specs::convert::FromSpecImpl<LegacyTextDataV0> for TextData {
    open spec fn obeys_from_spec() -> bool {
        true
    }

    open spec fn from_spec(v: LegacyTextDataV0) -> TextData {
        v.migrated()
    }
}

impl LegacyTransformV0 {
    pub open spec fn migrated(self) -> Transform {
        Transform {
            x: self.x,
            y: self.y,
            width: self.width,
            height: self.height,
            rotation_deg: self.rotation_deg,
        }
    }
}

impl From<LegacyTransformV0> for Transform {
    fn from(v: LegacyTransformV0) -> (r: Transform) {
        Transform {
            x: v.x,
            y: v.y,
            width: v.width,
            height: v.height,
            rotation_deg: v.rotation_deg,
        }
    }
}

impl vstd::std_specs::convert::FromSpecImpl<LegacyTransformV0> for Transform {
    open spec fn obeys_from_spec() -> bool {
        true
    }

    open spec fn from_spec(v: LegacyTransformV0) -> Transform {
        v.migrated()
    }
}

impl LegacyTextStyleV0 {
    pub open spec fn migrated(self) -> TextStyle {
        TextStyle {
            font_families: self.font_families,
            font_size: self.font_size,
            color: self.color,
            effect: match self.effect {
                Some(value) => Some(value.migrated()),
                None => None,
            },
            stroke: match self.stroke {
                Some(value) => Some(value.migrated()),
                None => None,
            },
            text_align: match self.text_align {
                Some(value) => Some(value.migrated()),
                None => None,
            },
            line_spacing: None,
            letter_spacing: None,
        }
    }
}

impl From<LegacyTextStyleV0> for TextStyle {
    fn from(v: LegacyTextStyleV0) -> (r: TextStyle) {
        TextStyle {
            font_families: v.font_families,
            font_size: v.font_size,
            color: v.color,
            effect: match v.effect {
                Some(value) => Some(TextShaderEffect::from(value)),
                None => None,
            },
            stroke: match v.stroke {
                Some(value) => Some(TextStrokeStyle::from(value)),
                None => None,
            },
            text_align: match v.text_align {
                Some(value) => Some(TextAlign::from(value)),
                None => None,
            },
            line_spacing: None,
            letter_spacing: None,
        }
    }
}

impl vstd::std_specs::convert::FromSpecImpl<LegacyTextStyleV0> for TextStyle {
    open spec fn obeys_from_spec() -> bool {
        true
    }

    open spec fn from_spec(v: LegacyTextStyleV0) -> TextStyle {
        v.migrated()
    }
}

impl LegacyTextShaderEffectV0 {
    pub open spec fn migrated(self) -> TextShaderEffect {
        TextShaderEffect {
            italic: self.italic,
            bold: self.bold,
        }
    }
}

impl From<LegacyTextShaderEffectV0> for TextShaderEffect {
    fn from(v: LegacyTextShaderEffectV0) -> (r: TextShaderEffect) {
        TextShaderEffect {
            italic: v.italic,
            bold: v.bold,
        }
    }
}

impl vstd::std_specs::convert::FromSpecImpl<LegacyTextShaderEffectV0> for TextShaderEffect {
    open spec fn obeys_from_spec() -> bool {
        true
    }

    open spec fn from_spec(v: LegacyTextShaderEffectV0) -> TextShaderEffect {
        v.migrated()
    }
}

impl LegacyTextStrokeStyleV0 {
    pub open spec fn migrated(self) -> TextStrokeStyle {
        TextStrokeStyle {
            enabled: self.enabled,
            color: self.color,
            width_px: self.width_px,
        }
    }
}

impl From<LegacyTextStrokeStyleV0> for TextStrokeStyle {
    fn from(v: LegacyTextStrokeStyleV0) -> (r: TextStrokeStyle) {
        TextStrokeStyle {
            enabled: v.enabled,
            color: v.color,
            width_px: v.width_px,
        }
    }
}

impl vstd::std_specs::convert::FromSpecImpl<LegacyTextStrokeStyleV0> for TextStrokeStyle {
    open spec fn obeys_from_spec() -> bool {
        true
    }

    open spec fn from_spec(v: LegacyTextStrokeStyleV0) -> TextStrokeStyle {
        v.migrated()
    }
}

impl LegacyTextAlignV0 {
    pub open spec fn migrated(self) -> TextAlign {
        match self {
            LegacyTextAlignV0::Left => TextAlign::Left,
            LegacyTextAlignV0::Center => TextAlign::Center,
            LegacyTextAlignV0::Right => TextAlign::Right,
        }
    }
}

impl From<LegacyTextAlignV0> for TextAlign {
    fn from(v: LegacyTextAlignV0) -> (r: TextAlign) {
        match v {
            LegacyTextAlignV0::Left => TextAlign::Left,
            LegacyTextAlignV0::Center => TextAlign::Center,
            LegacyTextAlignV0::Right => TextAlign::Right,
        }
    }
}

impl vstd::std_specs::convert::FromSpecImpl<LegacyTextAlignV0> for TextAlign {
    open spec fn obeys_from_spec() -> bool {
        true
    }

    open spec fn from_spec(v: LegacyTextAlignV0) -> TextAlign {
        v.migrated()
    }
}

impl LegacyProjectMetaPatchV0 {
    pub open spec fn migrated(self) -> ProjectMetaPatch {
        ProjectMetaPatch {
            name: self.name,
            style: match self.style {
                Some(value) => Some(value.migrated()),
                None => None,
            },
            updated_at: self.updated_at,
        }
    }
}

impl From<LegacyProjectMetaPatchV0> for ProjectMetaPatch {
    fn from(v: LegacyProjectMetaPatchV0) -> (r: ProjectMetaPatch) {
        ProjectMetaPatch {
            name: v.name,
            style: match v.style {
                Some(value) => Some(ProjectStyle::from(value)),
                None => None,
            },
            updated_at: v.updated_at,
        }
    }
}

impl vstd::std_specs::convert::FromSpecImpl<LegacyProjectMetaPatchV0> for ProjectMetaPatch {
    open spec fn obeys_from_spec() -> bool {
        true
    }

    open spec fn from_spec(v: LegacyProjectMetaPatchV0) -> ProjectMetaPatch {
        v.migrated()
    }
}

impl LegacyPagePatchV0 {
    pub open spec fn migrated(self) -> PagePatch {
        PagePatch {
            name: self.name,
            width: self.width,
            height: self.height,
        }
    }
}

impl From<LegacyPagePatchV0> for PagePatch {
    fn from(v: LegacyPagePatchV0) -> (r: PagePatch) {
        PagePatch {
            name: v.name,
            width: v.width,
            height: v.height,
        }
    }
}

impl vstd::std_specs::convert::FromSpecImpl<LegacyPagePatchV0> for PagePatch {
    open spec fn obeys_from_spec() -> bool {
        true
    }

    open spec fn from_spec(v: LegacyPagePatchV0) -> PagePatch {
        v.migrated()
    }
}

impl LegacyNodePatchV0 {
    pub open spec fn migrated(self) -> NodePatch {
        NodePatch {
            transform: match self.transform {
                Some(value) => Some(value.migrated()),
                None => None,
            },
            visible: self.visible,
            data: match self.data {
                Some(value) => Some(value.migrated()),
                None => None,
            },
        }
    }
}

impl From<LegacyNodePatchV0> for NodePatch {
    fn from(v: LegacyNodePatchV0) -> (r: NodePatch) {
        NodePatch {
            transform: match v.transform {
                Some(value) => Some(Transform::from(value)),
                None => None,
            },
            visible: v.visible,
            data: match v.data {
                Some(value) => Some(NodeDataPatch::from(value)),
                None => None,
            },
        }
    }
}

impl vstd::std_specs::convert::FromSpecImpl<LegacyNodePatchV0> for NodePatch {
    open spec fn obeys_from_spec() -> bool {
        true
    }

    open spec fn from_spec(v: LegacyNodePatchV0) -> NodePatch {
        v.migrated()
    }
}

impl LegacyNodeDataPatchV0 {
    pub open spec fn migrated(self) -> NodeDataPatch {
        match self {
            LegacyNodeDataPatchV0::Text(data) => NodeDataPatch::Text(data.migrated()),
            LegacyNodeDataPatchV0::Image(data) => NodeDataPatch::Image(data.migrated()),
            LegacyNodeDataPatchV0::Mask(data) => NodeDataPatch::Mask(data.migrated()),
        }
    }
}

impl From<LegacyNodeDataPatchV0> for NodeDataPatch {
    fn from(v: LegacyNodeDataPatchV0) -> (r: NodeDataPatch) {
        match v {
            LegacyNodeDataPatchV0::Text(data) => NodeDataPatch::Text(TextDataPatch::from(data)),
            LegacyNodeDataPatchV0::Image(data) => NodeDataPatch::Image(ImageDataPatch::from(data)),
            LegacyNodeDataPatchV0::Mask(data) => NodeDataPatch::Mask(MaskDataPatch::from(data)),
        }
    }
}

impl vstd::std_specs::convert::FromSpecImpl<LegacyNodeDataPatchV0> for NodeDataPatch {
    open spec fn obeys_from_spec() -> bool {
        true
    }

    open spec fn from_spec(v: LegacyNodeDataPatchV0) -> NodeDataPatch {
        v.migrated()
    }
}

impl LegacyTextDataPatchV0 {
    pub open spec fn migrated(self) -> TextDataPatch {
        TextDataPatch {
            confidence: self.confidence,
            source_lang: self.source_lang,
            source_direction: self.source_direction,
            rendered_direction: self.rendered_direction,
            line_polygons: self.line_polygons,
            rotation_deg: self.rotation_deg,
            detected_font_size_px: self.detected_font_size_px,
            detector: self.detector,
            text: self.text,
            translation: self.translation,
            style: match self.style {
                Some(Some(value)) => Some(Some(value.migrated())),
                Some(None) => Some(None),
                None => None,
            },
            font_prediction: self.font_prediction,
            sprite: self.sprite,
            sprite_transform: match self.sprite_transform {
                Some(Some(value)) => Some(Some(value.migrated())),
                Some(None) => Some(None),
                None => None,
            },
            lock_layout_box: self.lock_layout_box,
        }
    }
}

impl From<LegacyTextDataPatchV0> for TextDataPatch {
    fn from(v: LegacyTextDataPatchV0) -> (r: TextDataPatch) {
        TextDataPatch {
            confidence: v.confidence,
            source_lang: v.source_lang,
            source_direction: v.source_direction,
            rendered_direction: v.rendered_direction,
            line_polygons: v.line_polygons,
            rotation_deg: v.rotation_deg,
            detected_font_size_px: v.detected_font_size_px,
            detector: v.detector,
            text: v.text,
            translation: v.translation,
            style: match v.style {
                Some(Some(value)) => Some(Some(TextStyle::from(value))),
                Some(None) => Some(None),
                None => None,
            },
            font_prediction: v.font_prediction,
            sprite: v.sprite,
            sprite_transform: match v.sprite_transform {
                Some(Some(value)) => Some(Some(Transform::from(value))),
                Some(None) => Some(None),
                None => None,
            },
            lock_layout_box: v.lock_layout_box,
        }
    }
}

impl vstd::std_specs::convert::FromSpecImpl<LegacyTextDataPatchV0> for TextDataPatch {
    open spec fn obeys_from_spec() -> bool {
        true
    }

    open spec fn from_spec(v: LegacyTextDataPatchV0) -> TextDataPatch {
        v.migrated()
    }
}

impl LegacyImageDataPatchV0 {
    pub open spec fn migrated(self) -> ImageDataPatch {
        ImageDataPatch {
            blob: self.blob,
            opacity: self.opacity,
            name: self.name,
            natural_width: self.natural_width,
            natural_height: self.natural_height,
        }
    }
}

impl From<LegacyImageDataPatchV0> for ImageDataPatch {
    fn from(v: LegacyImageDataPatchV0) -> (r: ImageDataPatch) {
        ImageDataPatch {
            blob: v.blob,
            opacity: v.opacity,
            name: v.name,
            natural_width: v.natural_width,
            natural_height: v.natural_height,
        }
    }
}

impl vstd::std_specs::convert::FromSpecImpl<LegacyImageDataPatchV0> for ImageDataPatch {
    open spec fn obeys_from_spec() -> bool {
        true
    }

    open spec fn from_spec(v: LegacyImageDataPatchV0) -> ImageDataPatch {
        v.migrated()
    }
}

impl LegacyMaskDataPatchV0 {
    pub open spec fn migrated(self) -> MaskDataPatch {
        MaskDataPatch {
            blob: self.blob,
        }
    }
}

impl From<LegacyMaskDataPatchV0> for MaskDataPatch {
    fn from(v: LegacyMaskDataPatchV0) -> (r: MaskDataPatch) {
        MaskDataPatch {
            blob: v.blob,
        }
    }
}

impl vstd::std_specs::convert::FromSpecImpl<LegacyMaskDataPatchV0> for MaskDataPatch {
    open spec fn obeys_from_spec() -> bool {
        true
    }

    open spec fn from_spec(v: LegacyMaskDataPatchV0) -> MaskDataPatch {
        v.migrated()
    }
}

impl LegacyPageV0 {
    /// `page` is this page migrated: the same fields, and the same nodes in the
    /// same order under the same keys, each migrated.
    pub open spec fn migrates_to(self, page: Page) -> bool {
        let before = ordered::legacy_node_entries(self.nodes);
        let after = ordered::node_entries(page.nodes);
        &&& page.id == self.id
        &&& page.name == self.name
        &&& page.width == self.width
        &&& page.height == self.height
        &&& after.len() == before.len()
        &&& forall|i: int|
            0 <= i < after.len() ==> #[trigger] after[i] == (before[i].0, before[i].1.migrated())
    }
}

impl From<LegacyPageV0> for Page {
    fn from(v: LegacyPageV0) -> (r: Page)
        ensures
            v.migrates_to(r),
    {
        let before = ordered::legacy_nodes_into_entries(v.nodes);
        let ghost old_entries = before@;
        let mut after: Vec<(NodeId, Node)> = Vec::new();
        for entry in it: before
            invariant
                it.seq() == old_entries,
                after@.len() == it.index(),
                forall|i: int|
                    0 <= i < after@.len() ==> #[trigger] after@[i] == (
                        old_entries[i].0,
                        old_entries[i].1.migrated(),
                    ),
        {
            after.push((entry.0, Node::from(entry.1)));
        }
        Page {
            id: v.id,
            name: v.name,
            width: v.width,
            height: v.height,
            nodes: ordered::nodes_from_entries(after),
        }
    }
}

/// The nodes of a page are kept by a map whose value no function can name, so
/// what `from` promises stands on `from` itself.
impl vstd::std_specs::convert::FromSpecImpl<LegacyPageV0> for Page {
    open spec fn obeys_from_spec() -> bool {
        false
    }

    open spec fn from_spec(v: LegacyPageV0) -> Page {
        arbitrary()
    }
}

impl LegacySceneV0 {
    /// `scene` is this scene migrated: the project's metadata migrated, and the
    /// same pages in the same order under the same keys, each migrated.
    pub open spec fn migrates_to(self, scene: Scene) -> bool {
        let before = ordered::legacy_page_entries(self.pages);
        let after = ordered::page_entries(scene.pages);
        &&& scene.project == self.project.migrated()
        &&& after.len() == before.len()
        &&& forall|i: int|
            0 <= i < after.len() ==> (#[trigger] after[i]).0 == before[i].0
                && before[i].1.migrates_to(after[i].1)
    }
}

impl From<LegacySceneV0> for Scene {
    fn from(v: LegacySceneV0) -> (r: Scene)
        ensures
            v.migrates_to(r),
    {
        let before = ordered::legacy_pages_into_entries(v.pages);
        let ghost old_entries = before@;
        let mut after: Vec<(PageId, Page)> = Vec::new();
        for entry in it: before
            invariant
                it.seq() == old_entries,
                after@.len() == it.index(),
                forall|i: int|
                    0 <= i < after@.len() ==> (#[trigger] after@[i]).0 == old_entries[i].0
                        && old_entries[i].1.migrates_to(after@[i].1),
        {
            after.push((entry.0, Page::from(entry.1)));
        }
        Scene { project: ProjectMeta::from(v.project), pages: ordered::pages_from_entries(after) }
    }
}

/// See [`Page`]: what `from` promises stands on `from` itself.
impl vstd::std_specs::convert::FromSpecImpl<LegacySceneV0> for Scene {
    open spec fn obeys_from_spec() -> bool {
        false
    }

    open spec fn from_spec(v: LegacySceneV0) -> Scene {
        arbitrary()
    }
}

impl LegacyOpV0 {
    /// `op` is this operation migrated: the same kind, with every part migrated
    /// and a batch's operations migrated one by one, in their order.
    pub open spec fn migrates_to(self, op: Op) -> bool
        decreases self,
    {
        match (self, op) {
            (
                LegacyOpV0::UpdateProjectMeta { patch, prev },
                Op::UpdateProjectMeta { patch: new_patch, prev: new_prev },
            ) => new_patch == patch.migrated() && new_prev == prev.migrated(),
            (
                LegacyOpV0::AddPage { page, at },
                Op::AddPage { page: new_page, at: new_at },
            ) => page.migrates_to(new_page) && new_at == at,
            (
                LegacyOpV0::RemovePage { id, prev_page, prev_index },
                Op::RemovePage { id: new_id, prev_page: new_page, prev_index: new_index },
            ) => new_id == id && prev_page.migrates_to(new_page) && new_index == prev_index,
            (
                LegacyOpV0::UpdatePage { id, patch, prev },
                Op::UpdatePage { id: new_id, patch: new_patch, prev: new_prev },
            ) => new_id == id && new_patch == patch.migrated() && new_prev == prev.migrated(),
            (
                LegacyOpV0::ReorderPages { order, prev_order },
                Op::ReorderPages { order: new_order, prev_order: new_prev_order },
            ) => new_order == order && new_prev_order == prev_order,
            (
                LegacyOpV0::AddNode { page, node, at },
                Op::AddNode { page: new_page, node: new_node, at: new_at },
            ) => new_page == page && new_node == node.migrated() && new_at == at,
            (
                LegacyOpV0::RemoveNode { page, id, prev_node, prev_index },
                Op::RemoveNode {
                    page: new_page,
                    id: new_id,
                    prev_node: new_node,
                    prev_index: new_index,
                },
            ) => new_page == page && new_id == id && new_node == prev_node.migrated() && new_index
                == prev_index,
            (
                LegacyOpV0::UpdateNode { page, id, patch, prev },
                Op::UpdateNode { page: new_page, id: new_id, patch: new_patch, prev: new_prev },
            ) => new_page == page && new_id == id && new_patch == patch.migrated() && new_prev
                == prev.migrated(),
            (
                LegacyOpV0::ReorderNodes { page, order, prev_order },
                Op::ReorderNodes { page: new_page, order: new_order, prev_order: new_prev_order },
            ) => new_page == page && new_order == order && new_prev_order == prev_order,
            (
                LegacyOpV0::Batch { ops, label },
                Op::Batch { ops: new_ops, label: new_label },
            ) => {
                &&& new_label == label
                &&& new_ops@.len() == ops@.len()
                &&& forall|i: int|
                    0 <= i < ops@.len() ==> (#[trigger] ops@[i]).migrates_to(new_ops@[i])
            },
            _ => false,
        }
    }
}

/// Migrates one operation, and a batch from the inside out.
fn migrate_op(v: LegacyOpV0) -> (r: Op)
    ensures
        v.migrates_to(r),
    decreases v,
{
    match v {
        LegacyOpV0::UpdateProjectMeta { patch, prev } => Op::UpdateProjectMeta {
            patch: ProjectMetaPatch::from(patch),
            prev: ProjectMetaPatch::from(prev),
        },
        LegacyOpV0::AddPage { page, at } => Op::AddPage { page: Page::from(page), at },
        LegacyOpV0::RemovePage { id, prev_page, prev_index } => Op::RemovePage {
            id,
            prev_page: Page::from(prev_page),
            prev_index,
        },
        LegacyOpV0::UpdatePage { id, patch, prev } => Op::UpdatePage {
            id,
            patch: PagePatch::from(patch),
            prev: PagePatch::from(prev),
        },
        LegacyOpV0::ReorderPages { order, prev_order } => Op::ReorderPages { order, prev_order },
        LegacyOpV0::AddNode { page, node, at } => Op::AddNode { page, node: Node::from(node), at },
        LegacyOpV0::RemoveNode { page, id, prev_node, prev_index } => Op::RemoveNode {
            page,
            id,
            prev_node: Node::from(prev_node),
            prev_index,
        },
        LegacyOpV0::UpdateNode { page, id, patch, prev } => Op::UpdateNode {
            page,
            id,
            patch: NodePatch::from(patch),
            prev: NodePatch::from(prev),
        },
        LegacyOpV0::ReorderNodes { page, order, prev_order } => Op::ReorderNodes {
            page,
            order,
            prev_order,
        },
        LegacyOpV0::Batch { ops, label } => {
            let ghost old_ops = ops@;
            let mut new_ops: Vec<Op> = Vec::new();
            for op in it: ops
                invariant
                    it.seq() == old_ops,
                    v == (LegacyOpV0::Batch { ops, label }),
                    old_ops == ops@,
                    new_ops@.len() == it.index(),
                    forall|i: int|
                        0 <= i < new_ops@.len()
                            ==> (#[trigger] old_ops[i]).migrates_to(new_ops@[i]),
            {
                assert(decreases_to!(v => v->ops));
                assert(decreases_to!(ops => ops@));
                assert(decreases_to!(ops@ => ops@[it.index()]));
                new_ops.push(migrate_op(op));
            }
            Op::Batch { ops: new_ops, label }
        },
    }
}

impl From<LegacyOpV0> for Op {
    fn from(v: LegacyOpV0) -> (r: Op)
        ensures
            v.migrates_to(r),
    {
        migrate_op(v)
    }
}

/// See [`Page`]: what `from` promises stands on `from` itself.
impl vstd::std_specs::convert::FromSpecImpl<LegacyOpV0> for Op {
    open spec fn obeys_from_spec() -> bool {
        false
    }

    open spec fn from_spec(v: LegacyOpV0) -> Op {
        arbitrary()
    }
}

/// Migrating a project's metadata carries every field over under its name.
pub proof fn law_project_meta_is_carried_over(old_value: LegacyProjectMetaV0, new: ProjectMeta)
    requires
        call_ensures(<ProjectMeta as From<LegacyProjectMetaV0>>::from, (old_value,), new),
    ensures
        new.name == old_value.name,
        new.created_at == old_value.created_at,
        new.updated_at == old_value.updated_at,
        new.style == old_value.style.migrated(),
        new == old_value.migrated(),
{
}

/// Migrating a project's style carries every field over under its name.
pub proof fn law_project_style_is_carried_over(old_value: LegacyProjectStyleV0, new: ProjectStyle)
    requires
        call_ensures(<ProjectStyle as From<LegacyProjectStyleV0>>::from, (old_value,), new),
    ensures
        new.default_font == old_value.default_font,
        new == old_value.migrated(),
{
}

/// Migrating a node carries every field over under its name.
pub proof fn law_node_is_carried_over(old_value: LegacyNodeV0, new: Node)
    requires
        call_ensures(<Node as From<LegacyNodeV0>>::from, (old_value,), new),
    ensures
        new.id == old_value.id,
        new.transform == old_value.transform.migrated(),
        new.visible == old_value.visible,
        new.kind == old_value.kind.migrated(),
        new == old_value.migrated(),
{
}

/// Migrating an image node carries every field over under its name.
pub proof fn law_image_data_is_carried_over(old_value: LegacyImageDataV0, new: ImageData)
    requires
        call_ensures(<ImageData as From<LegacyImageDataV0>>::from, (old_value,), new),
    ensures
        new.role == old_value.role,
        new.blob == old_value.blob,
        new.opacity == old_value.opacity,
        new.natural_width == old_value.natural_width,
        new.natural_height == old_value.natural_height,
        new.name == old_value.name,
        new == old_value.migrated(),
{
}

/// Migrating a mask node carries every field over under its name.
pub proof fn law_mask_data_is_carried_over(old_value: LegacyMaskDataV0, new: MaskData)
    requires
        call_ensures(<MaskData as From<LegacyMaskDataV0>>::from, (old_value,), new),
    ensures
        new.role == old_value.role,
        new.blob == old_value.blob,
        new == old_value.migrated(),
{
}

/// Migrating a text node carries every field over under its name.
pub proof fn law_text_data_is_carried_over(old_value: LegacyTextDataV0, new: TextData)
    requires
        call_ensures(<TextData as From<LegacyTextDataV0>>::from, (old_value,), new),
    ensures
        new.confidence == old_value.confidence,
        new.source_lang == old_value.source_lang,
        new.source_direction == old_value.source_direction,
        new.rendered_direction == old_value.rendered_direction,
        new.line_polygons == old_value.line_polygons,
        new.rotation_deg == old_value.rotation_deg,
        new.detected_font_size_px == old_value.detected_font_size_px,
        new.detector == old_value.detector,
        new.text == old_value.text,
        new.translation == old_value.translation,
        new.style is Some <==> old_value.style is Some,
        old_value.style is Some ==> new.style->0 == old_value.style->0.migrated(),
        new.font_prediction == old_value.font_prediction,
        new.sprite == old_value.sprite,
        new.sprite_transform is Some <==> old_value.sprite_transform is Some,
        old_value.sprite_transform is Some
            ==> new.sprite_transform->0 == old_value.sprite_transform->0.migrated(),
        new.lock_layout_box == old_value.lock_layout_box,
        new == old_value.migrated(),
{
}

/// Migrating a transform carries every field over under its name.
pub proof fn law_transform_is_carried_over(old_value: LegacyTransformV0, new: Transform)
    requires
        call_ensures(<Transform as From<LegacyTransformV0>>::from, (old_value,), new),
    ensures
        new.x == old_value.x,
        new.y == old_value.y,
        new.width == old_value.width,
        new.height == old_value.height,
        new.rotation_deg == old_value.rotation_deg,
        new == old_value.migrated(),
{
}

/// Migrating a text style carries every field over under its name. The spacings,
/// which the frozen schema did not have, are left unset.
pub proof fn law_text_style_is_carried_over(old_value: LegacyTextStyleV0, new: TextStyle)
    requires
        call_ensures(<TextStyle as From<LegacyTextStyleV0>>::from, (old_value,), new),
    ensures
        new.font_families == old_value.font_families,
        new.font_size == old_value.font_size,
        new.color == old_value.color,
        new.effect is Some <==> old_value.effect is Some,
        old_value.effect is Some ==> new.effect->0 == old_value.effect->0.migrated(),
        new.stroke is Some <==> old_value.stroke is Some,
        old_value.stroke is Some ==> new.stroke->0 == old_value.stroke->0.migrated(),
        new.text_align is Some <==> old_value.text_align is Some,
        old_value.text_align is Some ==> new.text_align->0 == old_value.text_align->0.migrated(),
        new.line_spacing is None,
        new.letter_spacing is None,
        new == old_value.migrated(),
{
}

/// Migrating a text's effects carries every field over under its name.
pub proof fn law_text_shader_effect_is_carried_over(
    old_value: LegacyTextShaderEffectV0,
    new: TextShaderEffect,
)
    requires
        call_ensures(<TextShaderEffect as From<LegacyTextShaderEffectV0>>::from, (old_value,), new),
    ensures
        new.italic == old_value.italic,
        new.bold == old_value.bold,
        new == old_value.migrated(),
{
}

/// Migrating a text's stroke carries every field over under its name.
pub proof fn law_text_stroke_style_is_carried_over(
    old_value: LegacyTextStrokeStyleV0,
    new: TextStrokeStyle,
)
    requires
        call_ensures(<TextStrokeStyle as From<LegacyTextStrokeStyleV0>>::from, (old_value,), new),
    ensures
        new.enabled == old_value.enabled,
        new.color == old_value.color,
        new.width_px == old_value.width_px,
        new == old_value.migrated(),
{
}

/// Migrating a patch of a project's metadata carries every field over under its name.
pub proof fn law_project_meta_patch_is_carried_over(
    old_value: LegacyProjectMetaPatchV0,
    new: ProjectMetaPatch,
)
    requires
        call_ensures(<ProjectMetaPatch as From<LegacyProjectMetaPatchV0>>::from, (old_value,), new),
    ensures
        new.name == old_value.name,
        new.style is Some <==> old_value.style is Some,
        old_value.style is Some ==> new.style->0 == old_value.style->0.migrated(),
        new.updated_at == old_value.updated_at,
        new == old_value.migrated(),
{
}

/// Migrating a patch of a page carries every field over under its name.
pub proof fn law_page_patch_is_carried_over(old_value: LegacyPagePatchV0, new: PagePatch)
    requires
        call_ensures(<PagePatch as From<LegacyPagePatchV0>>::from, (old_value,), new),
    ensures
        new.name == old_value.name,
        new.width == old_value.width,
        new.height == old_value.height,
        new == old_value.migrated(),
{
}

/// Migrating a patch of a node carries every field over under its name.
pub proof fn law_node_patch_is_carried_over(old_value: LegacyNodePatchV0, new: NodePatch)
    requires
        call_ensures(<NodePatch as From<LegacyNodePatchV0>>::from, (old_value,), new),
    ensures
        new.transform is Some <==> old_value.transform is Some,
        old_value.transform is Some ==> new.transform->0 == old_value.transform->0.migrated(),
        new.visible == old_value.visible,
        new.data is Some <==> old_value.data is Some,
        old_value.data is Some ==> new.data->0 == old_value.data->0.migrated(),
        new == old_value.migrated(),
{
}

/// Migrating a patch of a text node carries every field over under its name.
pub proof fn law_text_data_patch_is_carried_over(
    old_value: LegacyTextDataPatchV0,
    new: TextDataPatch,
)
    requires
        call_ensures(<TextDataPatch as From<LegacyTextDataPatchV0>>::from, (old_value,), new),
    ensures
        new.confidence == old_value.confidence,
        new.source_lang == old_value.source_lang,
        new.source_direction == old_value.source_direction,
        new.rendered_direction == old_value.rendered_direction,
        new.line_polygons == old_value.line_polygons,
        new.rotation_deg == old_value.rotation_deg,
        new.detected_font_size_px == old_value.detected_font_size_px,
        new.detector == old_value.detector,
        new.text == old_value.text,
        new.translation == old_value.translation,
        new.style is Some <==> old_value.style is Some,
        old_value.style is Some ==> (new.style->0 is Some <==> old_value.style->0 is Some),
        old_value.style is Some && old_value.style->0 is Some ==> new.style->0->0
            == old_value.style->0->0.migrated(),
        new.font_prediction == old_value.font_prediction,
        new.sprite == old_value.sprite,
        new.sprite_transform is Some <==> old_value.sprite_transform is Some,
        old_value.sprite_transform is Some
            ==> (new.sprite_transform->0 is Some <==> old_value.sprite_transform->0 is Some),
        old_value.sprite_transform is Some && old_value.sprite_transform->0 is Some
            ==> new.sprite_transform->0->0
            == old_value.sprite_transform->0->0.migrated(),
        new.lock_layout_box == old_value.lock_layout_box,
        new == old_value.migrated(),
{
}

/// Migrating a patch of an image node carries every field over under its name.
pub proof fn law_image_data_patch_is_carried_over(
    old_value: LegacyImageDataPatchV0,
    new: ImageDataPatch,
)
    requires
        call_ensures(<ImageDataPatch as From<LegacyImageDataPatchV0>>::from, (old_value,), new),
    ensures
        new.blob == old_value.blob,
        new.opacity == old_value.opacity,
        new.name == old_value.name,
        new.natural_width == old_value.natural_width,
        new.natural_height == old_value.natural_height,
        new == old_value.migrated(),
{
}

/// Migrating a patch of a mask node carries every field over under its name.
pub proof fn law_mask_data_patch_is_carried_over(
    old_value: LegacyMaskDataPatchV0,
    new: MaskDataPatch,
)
    requires
        call_ensures(<MaskDataPatch as From<LegacyMaskDataPatchV0>>::from, (old_value,), new),
    ensures
        new.blob == old_value.blob,
        new == old_value.migrated(),
{
}

/// A node stays of its kind, with that kind's data migrated.
pub proof fn law_node_kind_is_carried_over(old_value: LegacyNodeKindV0, new: NodeKind)
    requires
        call_ensures(<NodeKind as From<LegacyNodeKindV0>>::from, (old_value,), new),
    ensures
        old_value matches LegacyNodeKindV0::Image(data)
            ==> new is Image && new->Image_0 == data.migrated(),
        old_value matches LegacyNodeKindV0::Text(data)
            ==> new is Text && new->Text_0 == data.migrated(),
        old_value matches LegacyNodeKindV0::Mask(data)
            ==> new is Mask && new->Mask_0 == data.migrated(),
        new == old_value.migrated(),
{
}

/// A patch stays for its kind of node, with that kind's patch migrated.
pub proof fn law_node_data_patch_is_carried_over(
    old_value: LegacyNodeDataPatchV0,
    new: NodeDataPatch,
)
    requires
        call_ensures(<NodeDataPatch as From<LegacyNodeDataPatchV0>>::from, (old_value,), new),
    ensures
        old_value matches LegacyNodeDataPatchV0::Text(data)
            ==> new is Text && new->Text_0 == data.migrated(),
        old_value matches LegacyNodeDataPatchV0::Image(data)
            ==> new is Image && new->Image_0 == data.migrated(),
        old_value matches LegacyNodeDataPatchV0::Mask(data)
            ==> new is Mask && new->Mask_0 == data.migrated(),
        new == old_value.migrated(),
{
}

/// Text stays aligned to its side.
pub proof fn law_text_align_is_carried_over(old_value: LegacyTextAlignV0, new: TextAlign)
    requires
        call_ensures(<TextAlign as From<LegacyTextAlignV0>>::from, (old_value,), new),
    ensures
        old_value is Left <==> new is Left,
        old_value is Center <==> new is Center,
        old_value is Right <==> new is Right,
        new == old_value.migrated(),
{
}

/// Migrating a page keeps its id, name and size, and its nodes in their order under
/// their keys, each migrated.
pub proof fn law_page_is_carried_over(old_page: LegacyPageV0, new: Page)
    requires
        call_ensures(<Page as From<LegacyPageV0>>::from, (old_page,), new) || old_page.migrates_to(
            new,
        ),
    ensures
        old_page.migrates_to(new),
        new.id == old_page.id,
        new.name == old_page.name,
        new.width == old_page.width,
        new.height == old_page.height,
        ({
            let before = ordered::legacy_node_entries(old_page.nodes);
            let after = ordered::node_entries(new.nodes);
            &&& after.len() == before.len()
            &&& forall|i: int|
                0 <= i < before.len() ==> (#[trigger] after[i]).0 == before[i].0
            &&& forall|i: int|
                0 <= i < before.len() ==> (#[trigger] after[i]).1 == before[i].1.migrated()
            &&& forall|i: int|
                0 <= i < before.len() ==> (#[trigger] after[i]).1.id == before[i].1.id
        }),
{
}

/// Migrating a scene keeps the project's metadata, and its pages in their order
/// under their keys, each migrated.
pub proof fn law_scene_is_carried_over(old_scene: LegacySceneV0, new: Scene)
    requires
        call_ensures(<Scene as From<LegacySceneV0>>::from, (old_scene,), new)
            || old_scene.migrates_to(new),
    ensures
        old_scene.migrates_to(new),
        new.project == old_scene.project.migrated(),
        new.project.name == old_scene.project.name,
        ({
            let before = ordered::legacy_page_entries(old_scene.pages);
            let after = ordered::page_entries(new.pages);
            &&& after.len() == before.len()
            &&& forall|i: int|
                0 <= i < before.len() ==> (#[trigger] after[i]).0 == before[i].0
            &&& forall|i: int|
                0 <= i < before.len() ==> before[i].1.migrates_to((#[trigger] after[i]).1)
        }),
{
}

/// Migrating an operation keeps its kind and everything in it: ids, places and
/// orders as they are, pages, nodes and patches migrated, and what undoes it apart
/// from what it does. A batch keeps its label and its operations in their order.
pub proof fn law_op_is_carried_over(old_op: LegacyOpV0, new: Op)
    requires
        call_ensures(<Op as From<LegacyOpV0>>::from, (old_op,), new) || old_op.migrates_to(new),
    ensures
        old_op.migrates_to(new),
        match old_op {
            LegacyOpV0::UpdateProjectMeta { patch, prev } => new == (Op::UpdateProjectMeta {
                patch: patch.migrated(),
                prev: prev.migrated(),
            }),
            LegacyOpV0::AddPage { page, at } => new is AddPage && page.migrates_to(
                new->AddPage_page,
            ) && new->AddPage_at == at,
            LegacyOpV0::RemovePage { id, prev_page, prev_index } => new is RemovePage
                && new->RemovePage_id == id && prev_page.migrates_to(new->RemovePage_prev_page)
                && new->RemovePage_prev_index == prev_index,
            LegacyOpV0::UpdatePage { id, patch, prev } => new == (Op::UpdatePage {
                id,
                patch: patch.migrated(),
                prev: prev.migrated(),
            }),
            LegacyOpV0::ReorderPages { order, prev_order } => new == (Op::ReorderPages {
                order,
                prev_order,
            }),
            LegacyOpV0::AddNode { page, node, at } => new == (Op::AddNode {
                page,
                node: node.migrated(),
                at,
            }),
            LegacyOpV0::RemoveNode { page, id, prev_node, prev_index } => new == (Op::RemoveNode {
                page,
                id,
                prev_node: prev_node.migrated(),
                prev_index,
            }),
            LegacyOpV0::UpdateNode { page, id, patch, prev } => new == (Op::UpdateNode {
                page,
                id,
                patch: patch.migrated(),
                prev: prev.migrated(),
            }),
            LegacyOpV0::ReorderNodes { page, order, prev_order } => new == (Op::ReorderNodes {
                page,
                order,
                prev_order,
            }),
            LegacyOpV0::Batch { ops, label } => {
                &&& new is Batch
                &&& new->Batch_label == label
                &&& new->Batch_ops@.len() == ops@.len()
                &&& forall|i: int|
                    0 <= i < ops@.len() ==> ops@[i].migrates_to(#[trigger] new->Batch_ops@[i])
            },
        },
{
    if let LegacyOpV0::Batch { ops, label } = old_op {
        assert forall|i: int| 0 <= i < ops@.len() implies ops@[i].migrates_to(
            #[trigger] new->Batch_ops@[i],
        ) by {
            let old_at = ops@[i];
        }
    }
}

/// Migration loses nothing of a node: two nodes that migrate to the same one are
/// the same.
pub proof fn law_node_migration_loses_nothing(one: LegacyNodeV0, other: LegacyNodeV0)
    requires
        one.migrated() == other.migrated(),
    ensures
        one == other,
{
    assert(one.kind.migrated() == other.kind.migrated());
    match (one.kind, other.kind) {
        (LegacyNodeKindV0::Text(a), LegacyNodeKindV0::Text(b)) => {
            assert(a.migrated() == b.migrated());
            if a.style is Some && b.style is Some {
                assert(a.style->0.migrated() == b.style->0.migrated());
                lemma_style_migration_loses_nothing(a.style->0, b.style->0);
            }
        },
        (LegacyNodeKindV0::Image(a), LegacyNodeKindV0::Image(b)) => {
            assert(a.migrated() == b.migrated());
        },
        (LegacyNodeKindV0::Mask(a), LegacyNodeKindV0::Mask(b)) => {
            assert(a.migrated() == b.migrated());
        },
        _ => {},
    }
}

proof fn lemma_style_migration_loses_nothing(one: LegacyTextStyleV0, other: LegacyTextStyleV0)
    requires
        one.migrated() == other.migrated(),
    ensures
        one == other,
{
    if one.effect is Some && other.effect is Some {
        assert(one.effect->0.migrated() == other.effect->0.migrated());
    }
    if one.stroke is Some && other.stroke is Some {
        assert(one.stroke->0.migrated() == other.stroke->0.migrated());
    }
    if one.text_align is Some && other.text_align is Some {
        assert(one.text_align->0.migrated() == other.text_align->0.migrated());
    }
}

/// Migration loses nothing of a patch: two patches that migrate to the same one are
/// the same.
pub proof fn law_patch_migration_loses_nothing(one: LegacyNodePatchV0, other: LegacyNodePatchV0)
    requires
        one.migrated() == other.migrated(),
    ensures
        one == other,
{
    if one.transform is Some && other.transform is Some {
        assert(one.transform->0.migrated() == other.transform->0.migrated());
    }
    if one.data is Some && other.data is Some {
        assert(one.data->0.migrated() == other.data->0.migrated());
        match (one.data->0, other.data->0) {
            (LegacyNodeDataPatchV0::Text(a), LegacyNodeDataPatchV0::Text(b)) => {
                assert(a.migrated() == b.migrated());
                if a.style is Some && a.style->0 is Some && b.style is Some && b.style->0 is Some {
                    assert(a.style->0->0.migrated() == b.style->0->0.migrated());
                    lemma_style_migration_loses_nothing(a.style->0->0, b.style->0->0);
                }
                if a.sprite_transform is Some && a.sprite_transform->0 is Some
                    && b.sprite_transform is Some && b.sprite_transform->0 is Some {
                    assert(a.sprite_transform->0->0.migrated()
                        == b.sprite_transform->0->0.migrated());
                }
            },
            (LegacyNodeDataPatchV0::Image(a), LegacyNodeDataPatchV0::Image(b)) => {
                assert(a.migrated() == b.migrated());
            },
            (LegacyNodeDataPatchV0::Mask(a), LegacyNodeDataPatchV0::Mask(b)) => {
                assert(a.migrated() == b.migrated());
            },
            _ => {},
        }
    }
}

} // verus!
