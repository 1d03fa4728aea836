//! The insertion-ordered maps that hold pages and nodes.
//!
//! The maps are `indexmap`'s. What one of them holds is the sequence of its
//! entries in their order, in which no key occurs twice.

use indexmap::IndexMap;
use vstd::prelude::*;

use crate::legacy::{LegacyNodeV0, LegacyPageV0};
use crate::scene::{Node, NodeId, Page, PageId};

verus! {

#[verifier::external_type_specification]
#[verifier::external_body]
#[verifier::reject_recursive_types(K)]
#[verifier::reject_recursive_types(V)]
#[verifier::reject_recursive_types(S)]
pub struct ExIndexMap<K, V, S>(IndexMap<K, V, S>);

/// The entries of a scene's pages, in their order.
pub uninterp spec fn page_entries(pages: IndexMap<PageId, Page>) -> Seq<(PageId, Page)>;

/// The entries of a page's nodes, in their order.
pub uninterp spec fn node_entries(nodes: IndexMap<NodeId, Node>) -> Seq<(NodeId, Node)>;

/// The entries of a frozen scene's pages, in their order.
pub uninterp spec fn legacy_page_entries(pages: IndexMap<PageId, LegacyPageV0>) -> Seq<
    (PageId, LegacyPageV0),
>;

/// The entries of a frozen page's nodes, in their order.
pub uninterp spec fn legacy_node_entries(nodes: IndexMap<NodeId, LegacyNodeV0>) -> Seq<
    (NodeId, LegacyNodeV0),
>;

/// No two entries have the same key.
pub open spec fn distinct_keys<V>(entries: Seq<(u128, V)>) -> bool {
    forall|i: int, j: int| 0 <= i < j < entries.len() ==> #[trigger] entries[i].0 != #[trigger] entries[j].0
}

/// There is one entry with the key `key`, and its value is `value`.
pub open spec fn is_only_entry<V>(entries: Seq<(u128, V)>, key: u128, value: V) -> bool {
    exists|i: int|
        0 <= i < entries.len() && #[trigger] entries[i] == (key, value) && forall|j: int|
            0 <= j < entries.len() && (#[trigger] entries[j]).0 == key ==> j == i
}

/// Collecting pairs into an `IndexMap` (`FromIterator`): each pair becomes an
/// entry, in the order of the pairs, where no two have the same key.
#[verifier::external_body]
pub(crate) fn pages_from_entries(entries: Vec<(PageId, Page)>) -> (pages: IndexMap<PageId, Page>)
    requires
        distinct_keys(entries@),
    ensures
        page_entries(pages) == entries@,
{
    entries.into_iter().collect()
}

/// Collecting pairs into an `IndexMap` (`FromIterator`): each pair becomes an
/// entry, in the order of the pairs, where no two have the same key.
#[verifier::external_body]
pub(crate) fn nodes_from_entries(entries: Vec<(NodeId, Node)>) -> (nodes: IndexMap<NodeId, Node>)
    requires
        distinct_keys(entries@),
    ensures
        node_entries(nodes) == entries@,
{
    entries.into_iter().collect()
}

/// `IndexMap::into_iter`: the entries, in their order. A map holds each key
/// once.
#[verifier::external_body]
pub(crate) fn legacy_pages_into_entries(pages: IndexMap<PageId, LegacyPageV0>) -> (entries: Vec<
    (PageId, LegacyPageV0),
>)
    ensures
        entries@ == legacy_page_entries(pages),
        distinct_keys(entries@),
{
    pages.into_iter().collect()
}

/// `IndexMap::into_iter`: the entries, in their order. A map holds each key
/// once.
#[verifier::external_body]
pub(crate) fn legacy_nodes_into_entries(nodes: IndexMap<NodeId, LegacyNodeV0>) -> (entries: Vec<
    (NodeId, LegacyNodeV0),
>)
    ensures
        entries@ == legacy_node_entries(nodes),
        distinct_keys(entries@),
{
    nodes.into_iter().collect()
}

/// `IndexMap::get`: the value under `id`, where there is one.
#[verifier::external_body]
pub(crate) fn get_page(pages: &IndexMap<PageId, Page>, id: PageId) -> (result: Option<&Page>)
    ensures
        match result {
            Some(page) => is_only_entry(page_entries(*pages), id, *page),
            None => forall|i: int|
                0 <= i < page_entries(*pages).len() ==> (#[trigger] page_entries(*pages)[i]).0
                    != id,
        },
{
    pages.get(&id)
}

/// `IndexMap::len`: the number of entries.
#[verifier::external_body]
pub(crate) fn node_count(nodes: &IndexMap<NodeId, Node>) -> (count: usize)
    ensures
        count == node_entries(*nodes).len(),
{
    nodes.len()
}

/// `IndexMap::get_index`: the entry with the given index in the order, or `None`
/// behind the last one.
#[verifier::external_body]
pub(crate) fn node_at(nodes: &IndexMap<NodeId, Node>, index: usize) -> (result: Option<
    (&NodeId, &Node),
>)
    ensures
        match result {
            Some((id, node)) => index < node_entries(*nodes).len() && node_entries(
                *nodes,
            )[index as int] == (*id, *node),
            None => index >= node_entries(*nodes).len(),
        },
{
    nodes.get_index(index)
}

} // verus!
