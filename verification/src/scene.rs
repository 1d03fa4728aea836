//! The project graph: a scene of pages, a page of nodes, and the operations
//! that edit them.
//!
//! Pages and nodes are kept in the order in which they are drawn, each under
//! its id. An id is the 128 bits of a UUID. A single-precision float is held as
//! its bit pattern ([`FloatBits`]), a point in time as seconds and nanoseconds
//! ([`Timestamp`]).

use indexmap::IndexMap;
use vstd::prelude::*;

use crate::ordered;

verus! {

/// The 128 bits of a page's UUID.
pub type PageId = u128;

/// The 128 bits of a node's UUID.
pub type NodeId = u128;

/// A single-precision float, as its bit pattern.
#[derive(Clone, Copy, Debug, PartialEq, Eq, Structural)]
pub struct FloatBits {
    pub bits: u32,
}

/// A point in time, in seconds since 1970-01-01T00:00:00Z and nanoseconds
/// within that second.
#[derive(Clone, Copy, Debug, PartialEq, Eq, Structural)]
pub struct Timestamp {
    pub secs: i64,
    pub nanos: u32,
}

/// The hash under which a blob is stored.
#[derive(Debug)]
pub struct BlobRef {
    pub hash: String,
}

/// What an image node is for. Roles that no rule here looks at are kept by
/// their number.
#[derive(Clone, Copy, Debug, PartialEq, Eq, Structural)]
pub enum ImageRole {
    Source,
    Inpainted,
    Other(u32),
}

/// What a mask node is for. Roles that no rule here looks at are kept by their
/// number.
#[derive(Clone, Copy, Debug, PartialEq, Eq, Structural)]
pub enum MaskRole {
    Segment,
    Bubble,
    Other(u32),
}

/// The direction in which text runs, by its number.
#[derive(Clone, Copy, Debug, PartialEq, Eq, Structural)]
pub struct TextDirection {
    pub number: u32,
}

/// A font detector's finding, in its encoded form. It is only carried along.
#[derive(Debug)]
pub struct FontPrediction {
    pub encoded: Vec<u8>,
}

/// A whole project.
#[derive(Debug)]
pub struct Scene {
    pub project: ProjectMeta,
    pub pages: IndexMap<PageId, Page>,
}

/// An epoch together with the scene at that epoch.
#[derive(Debug)]
pub struct SceneSnapshot {
    pub epoch: u64,
    pub scene: Scene,
}

#[derive(Debug)]
pub struct ProjectMeta {
    pub name: String,
    pub created_at: Timestamp,
    pub updated_at: Timestamp,
    pub style: ProjectStyle,
}

#[derive(Debug)]
pub struct ProjectStyle {
    pub default_font: Option<String>,
}

#[derive(Debug)]
pub struct Page {
    pub id: PageId,
    pub name: String,
    pub width: u32,
    pub height: u32,
    pub nodes: IndexMap<NodeId, Node>,
}

#[derive(Debug)]
pub struct Node {
    pub id: NodeId,
    pub transform: Transform,
    pub visible: bool,
    pub kind: NodeKind,
}

#[derive(Debug)]
pub enum NodeKind {
    Image(ImageData),
    Text(TextData),
    Mask(MaskData),
}

#[derive(Debug)]
pub struct ImageData {
    pub role: ImageRole,
    pub blob: BlobRef,
    pub opacity: FloatBits,
    pub natural_width: u32,
    pub natural_height: u32,
    pub name: Option<String>,
}

#[derive(Debug)]
pub struct MaskData {
    pub role: MaskRole,
    pub blob: BlobRef,
}

#[derive(Debug)]
pub struct TextData {
    pub confidence: FloatBits,
    pub source_lang: Option<String>,
    pub source_direction: Option<TextDirection>,
    pub rendered_direction: Option<TextDirection>,
    pub line_polygons: Option<Vec<[[FloatBits; 2]; 4]>>,
    pub rotation_deg: Option<FloatBits>,
    pub detected_font_size_px: Option<FloatBits>,
    pub detector: Option<String>,
    pub text: Option<String>,
    pub translation: Option<String>,
    pub style: Option<TextStyle>,
    pub font_prediction: Option<FontPrediction>,
    pub sprite: Option<BlobRef>,
    pub sprite_transform: Option<Transform>,
    pub lock_layout_box: bool,
}

#[derive(Clone, Copy, Debug, PartialEq, Eq, Structural)]
pub struct Transform {
    pub x: FloatBits,
    pub y: FloatBits,
    pub width: FloatBits,
    pub height: FloatBits,
    pub rotation_deg: FloatBits,
}

#[derive(Debug)]
pub struct TextStyle {
    pub font_families: Vec<String>,
    pub font_size: Option<FloatBits>,
    pub color: [u8; 4],
    pub effect: Option<TextShaderEffect>,
    pub stroke: Option<TextStrokeStyle>,
    pub text_align: Option<TextAlign>,
    pub line_spacing: Option<FloatBits>,
    pub letter_spacing: Option<FloatBits>,
}

#[derive(Clone, Copy, Debug, PartialEq, Eq, Structural)]
pub struct TextShaderEffect {
    pub italic: bool,
    pub bold: bool,
}

#[derive(Debug)]
pub struct TextStrokeStyle {
    pub enabled: bool,
    pub color: [u8; 4],
    pub width_px: Option<FloatBits>,
}

#[derive(Clone, Copy, Debug, PartialEq, Eq, Structural)]
pub enum TextAlign {
    Left,
    Center,
    Right,
}

/// One edit of a scene, with what it takes to undo it.
#[allow(inconsistent_fields)]
#[derive(Debug)]
pub enum Op {
    UpdateProjectMeta { patch: ProjectMetaPatch, prev: ProjectMetaPatch },
    AddPage { page: Page, at: usize },
    RemovePage { id: PageId, prev_page: Page, prev_index: usize },
    UpdatePage { id: PageId, patch: PagePatch, prev: PagePatch },
    ReorderPages { order: Vec<PageId>, prev_order: Vec<PageId> },
    AddNode { page: PageId, node: Node, at: usize },
    RemoveNode { page: PageId, id: NodeId, prev_node: Node, prev_index: usize },
    UpdateNode { page: PageId, id: NodeId, patch: NodePatch, prev: NodePatch },
    ReorderNodes { page: PageId, order: Vec<NodeId>, prev_order: Vec<NodeId> },
    Batch { ops: Vec<Op>, label: String },
}

/// New values for a project's metadata; a field that is `None` stays.
#[derive(Debug)]
pub struct ProjectMetaPatch {
    pub name: Option<String>,
    pub style: Option<ProjectStyle>,
    pub updated_at: Option<Timestamp>,
}

/// New values for a page; a field that is `None` stays.
#[derive(Debug)]
pub struct PagePatch {
    pub name: Option<String>,
    pub width: Option<u32>,
    pub height: Option<u32>,
}

/// New values for a node; a field that is `None` stays.
#[derive(Debug)]
pub struct NodePatch {
    pub transform: Option<Transform>,
    pub visible: Option<bool>,
    pub data: Option<NodeDataPatch>,
}

#[derive(Debug)]
pub enum NodeDataPatch {
    Text(TextDataPatch),
    Image(ImageDataPatch),
    Mask(MaskDataPatch),
}

/// New values for a text node. Where the field itself is optional, the outer
/// `None` leaves it and `Some(None)` clears it.
#[derive(Debug)]
pub struct TextDataPatch {
    pub confidence: Option<FloatBits>,
    pub source_lang: Option<Option<String>>,
    pub source_direction: Option<Option<TextDirection>>,
    pub rendered_direction: Option<Option<TextDirection>>,
    pub line_polygons: Option<Option<Vec<[[FloatBits; 2]; 4]>>>,
    pub rotation_deg: Option<Option<FloatBits>>,
    pub detected_font_size_px: Option<Option<FloatBits>>,
    pub detector: Option<Option<String>>,
    pub text: Option<Option<String>>,
    pub translation: Option<Option<String>>,
    pub style: Option<Option<TextStyle>>,
    pub font_prediction: Option<Option<FontPrediction>>,
    pub sprite: Option<Option<BlobRef>>,
    pub sprite_transform: Option<Option<Transform>>,
    pub lock_layout_box: Option<bool>,
}

#[derive(Debug)]
pub struct ImageDataPatch {
    pub blob: Option<BlobRef>,
    pub opacity: Option<FloatBits>,
    pub name: Option<Option<String>>,
    pub natural_width: Option<u32>,
    pub natural_height: Option<u32>,
}

#[derive(Debug)]
pub struct MaskDataPatch {
    pub blob: Option<BlobRef>,
}

/// The blob of the first source image among `entries`, from index `from` on.
pub open spec fn source_blob_from(entries: Seq<(NodeId, Node)>, from: int) -> Option<BlobRef>
    decreases entries.len() - from,
{
    if from < 0 || from >= entries.len() {
        None
    } else {
        match entries[from].1.kind {
            NodeKind::Image(data) if data.role == ImageRole::Source => Some(data.blob),
            _ => source_blob_from(entries, from + 1),
        }
    }
}

impl Scene {
    /// The page with the given id, where there is one.
    pub fn page(&self, id: PageId) -> (result: Option<&Page>)
        ensures
            match result {
                Some(page) => ordered::is_only_entry(ordered::page_entries(self.pages), id, *page),
                None => forall|i: int|
                    0 <= i < ordered::page_entries(self.pages).len()
                        ==> (#[trigger] ordered::page_entries(self.pages)[i]).0 != id,
            },
    {
        ordered::get_page(&self.pages, id)
    }
}

impl Page {
    /// The blob of the page's source image: that of the first image node with
    /// that role.
    pub fn source_blob(&self) -> (result: Option<&BlobRef>)
        ensures
            match result {
                Some(blob) => source_blob_from(ordered::node_entries(self.nodes), 0) == Some(*blob),
                None => source_blob_from(ordered::node_entries(self.nodes), 0) is None,
            },
    {
        let ghost entries = ordered::node_entries(self.nodes);
        let count: usize = ordered::node_count(&self.nodes);
        let mut i: usize = 0;
        while i < count
            invariant
                entries == ordered::node_entries(self.nodes),
                count == entries.len(),
                i <= count,
                source_blob_from(entries, 0) == source_blob_from(entries, i as int),
            decreases count - i,
        {
            if let Some((_, node)) = ordered::node_at(&self.nodes, i) {
                if let NodeKind::Image(data) = &node.kind {
                    if data.role == ImageRole::Source {
                        return Some(&data.blob);
                    }
                }
            }
            i += 1;
        }
        None
    }
}

/// The source blob of a page is that of an image node with that role, and no
/// such node comes before it; there is none exactly when no node has that role.
pub proof fn law_source_blob_is_the_first(entries: Seq<(NodeId, Node)>)
    ensures
        match source_blob_from(entries, 0) {
            Some(blob) => exists|i: int|
                0 <= i < entries.len() && #[trigger] is_source(entries[i].1) && source_of(
                    entries[i].1,
                ) == blob && forall|j: int| 0 <= j < i ==> !#[trigger] is_source(entries[j].1),
            None => forall|i: int| 0 <= i < entries.len() ==> !#[trigger] is_source(entries[i].1),
        },
{
    lemma_source_blob_from(entries, 0);
}

/// The node is an image node with the source role.
pub open spec fn is_source(node: Node) -> bool {
    node.kind matches NodeKind::Image(data) && data.role == ImageRole::Source
}

/// The blob of an image node.
pub open spec fn source_of(node: Node) -> BlobRef {
    node.kind->Image_0.blob
}

proof fn lemma_source_blob_from(entries: Seq<(NodeId, Node)>, from: int)
    requires
        0 <= from <= entries.len(),
        forall|j: int| 0 <= j < from ==> !#[trigger] is_source(entries[j].1),
    ensures
        match source_blob_from(entries, from) {
            Some(blob) => exists|i: int|
                from <= i < entries.len() && #[trigger] is_source(entries[i].1) && source_of(
                    entries[i].1,
                ) == blob && forall|j: int| 0 <= j < i ==> !#[trigger] is_source(entries[j].1),
            None => forall|i: int| 0 <= i < entries.len() ==> !#[trigger] is_source(entries[i].1),
        },
    decreases entries.len() - from,
{
    if from < entries.len() {
        if !is_source(entries[from].1) {
            lemma_source_blob_from(entries, from + 1);
        }
    }
}

/// The page that is found is the one under the id that was asked for, and a page is
/// found whenever there is one under it.
pub proof fn law_page_is_found_under_its_id(scene: &Scene, id: PageId, result: Option<&Page>)
    requires
        call_ensures(Scene::page, (scene, id), result),
    ensures
        ({
            let entries = ordered::page_entries(scene.pages);
            &&& result is Some <==> exists|i: int|
                0 <= i < entries.len() && (#[trigger] entries[i]).0 == id
            &&& result matches Some(page) ==> forall|i: int|
                0 <= i < entries.len() && (#[trigger] entries[i]).0 == id ==> entries[i].1 == *page
        }),
{
    let entries = ordered::page_entries(scene.pages);
    if let Some(page) = result {
        let i = choose|i: int|
            0 <= i < entries.len() && #[trigger] entries[i] == (id, *page) && forall|j: int|
                0 <= j < entries.len() && (#[trigger] entries[j]).0 == id ==> j == i;
        assert(entries[i].0 == id);
    }
}

/// The source blob of a page is the blob of an image node with the source role, at
/// whatever index, with no such node before it. There is none exactly when no node
/// of the page is an image node with that role.
pub proof fn law_page_shows_its_first_source_image(page: &Page, result: Option<&BlobRef>)
    requires
        call_ensures(Page::source_blob, (page,), result),
    ensures
        ({
            let nodes = ordered::node_entries(page.nodes);
            match result {
                Some(blob) => exists|k: int|
                    {
                        &&& 0 <= k < nodes.len()
                        &&& (#[trigger] nodes[k]).1.kind is Image
                        &&& nodes[k].1.kind->Image_0.role == ImageRole::Source
                        &&& nodes[k].1.kind->Image_0.blob == *blob
                        &&& forall|j: int|
                            0 <= j < k ==> !((#[trigger] nodes[j]).1.kind is Image
                                && nodes[j].1.kind->Image_0.role == ImageRole::Source)
                    },
                None => forall|k: int|
                    0 <= k < nodes.len() ==> !((#[trigger] nodes[k]).1.kind is Image
                        && nodes[k].1.kind->Image_0.role == ImageRole::Source),
            }
        }),
{
    let nodes = ordered::node_entries(page.nodes);
    law_source_blob_is_the_first(nodes);
    assert forall|k: int| 0 <= k < nodes.len() implies is_source((#[trigger] nodes[k]).1) == (
    nodes[k].1.kind is Image && nodes[k].1.kind->Image_0.role == ImageRole::Source) by {}
    if let Some(blob) = result {
        let k = choose|k: int|
            0 <= k < nodes.len() && #[trigger] is_source(nodes[k].1) && source_of(nodes[k].1)
                == *blob && forall|j: int| 0 <= j < k ==> !#[trigger] is_source(nodes[j].1);
        assert(nodes[k].1.kind->Image_0.blob == *blob);
        assert forall|j: int| 0 <= j < k implies !((#[trigger] nodes[j]).1.kind is Image
            && nodes[j].1.kind->Image_0.role == ImageRole::Source) by {
            assert(!is_source(nodes[j].1));
        }
    } else {
        assert forall|k: int| 0 <= k < nodes.len() implies !((#[trigger] nodes[k]).1.kind is Image
            && nodes[k].1.kind->Image_0.role == ImageRole::Source) by {
            assert(!is_source(nodes[k].1));
        }
    }
}

} // verus!
