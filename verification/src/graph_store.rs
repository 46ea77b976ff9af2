//! Trusted boundary around petgraph's `StableGraph`, the backing store for
//! the request graph. The graph is kept with `usize` indices so that the
//! index-capacity panics petgraph documents for narrower index types cannot
//! occur.

use vstd::prelude::*;
use vstd::multiset::Multiset;
use petgraph::stable_graph::StableDiGraph;
use petgraph::visit::EdgeRef;
use petgraph::visit::IntoEdgeReferences;

verus! {

#[verifier::external_type_specification]
#[verifier::external_body]
#[verifier::reject_recursive_types(N)]
#[verifier::reject_recursive_types(E)]
#[verifier::reject_recursive_types(Ty)]
#[verifier::reject_recursive_types(Ix)]
pub struct ExStableGraph<N, E, Ty, Ix>(petgraph::stable_graph::StableGraph<N, E, Ty, Ix>);

#[verifier::external_type_specification]
#[verifier::external_body]
pub struct ExDirected(petgraph::Directed);

/// The indices of the nodes present in the graph.
pub uninterp spec fn graph_node_set(g: StableDiGraph<u64, u64, usize>) -> Set<int>;

/// How many node slots the graph has ever allocated: the nodes present plus
/// the vacant slots that removals left behind.
pub uninterp spec fn graph_slot_count(g: StableDiGraph<u64, u64, usize>) -> int;

/// The directed edges of the graph, as (source index, target index) pairs;
/// a multiset because parallel edges are kept, not deduplicated.
pub uninterp spec fn graph_edge_multiset(g: StableDiGraph<u64, u64, usize>) -> Multiset<(int, int)>;

/// A graph with no vacant slots: its node indices are exactly 0..slot count.
/// Graphs built without ever removing a node stay in this shape.
pub open spec fn graph_is_compact(g: StableDiGraph<u64, u64, usize>) -> bool {
    graph_node_set(g) == Set::new(|i: int| 0 <= i < graph_slot_count(g))
}

/// Relies on StableGraph::with_capacity: a fresh graph with no nodes, no
/// edges, and no vacant slots.
#[verifier::external_body]
pub(crate) fn graph_new() -> (g: StableDiGraph<u64, u64, usize>)
    ensures
        graph_node_set(g) == Set::<int>::empty(),
        graph_slot_count(g) == 0,
        graph_edge_multiset(g) == Multiset::<(int, int)>::empty(),
{
    StableDiGraph::with_capacity(0, 0)
}

/// Relies on StableGraph::add_node: adds one node and returns its index,
/// filling a vacant slot when one exists and appending a fresh slot
/// otherwise — so on a compact graph the new index is the old slot count.
/// With `usize` indices the capacity error petgraph guards against cannot
/// arise, so the call does not panic.
#[verifier::external_body]
pub(crate) fn graph_add_node(g: &mut StableDiGraph<u64, u64, usize>, weight: u64) -> (r: usize)
    ensures
        graph_node_set(*final(g)) == graph_node_set(*old(g)).insert(r as int),
        !graph_node_set(*old(g)).contains(r as int),
        (r as int) < graph_slot_count(*final(g)),
        graph_slot_count(*old(g)) <= graph_slot_count(*final(g)),
        graph_slot_count(*final(g)) <= graph_slot_count(*old(g)) + 1,
        graph_edge_multiset(*final(g)) == graph_edge_multiset(*old(g)),
        graph_is_compact(*old(g)) ==> r as int == graph_slot_count(*old(g))
            && graph_slot_count(*final(g)) == graph_slot_count(*old(g)) + 1,
{
    g.add_node(weight).index()
}

/// Relies on StableGraph::add_edge: records one more parallel edge from `a`
/// to `b`, touching no nodes. It panics when an endpoint is absent, which the
/// preconditions rule out; the edge-capacity panic is documented as not
/// applicable to `usize` indices.
#[verifier::external_body]
pub(crate) fn graph_add_edge(g: &mut StableDiGraph<u64, u64, usize>, a: usize, b: usize, weight: u64)
    requires
        graph_node_set(*old(g)).contains(a as int),
        graph_node_set(*old(g)).contains(b as int),
    ensures
        graph_node_set(*final(g)) == graph_node_set(*old(g)),
        graph_slot_count(*final(g)) == graph_slot_count(*old(g)),
        graph_edge_multiset(*final(g)) == graph_edge_multiset(*old(g)).insert((a as int, b as int)),
{
    g.add_edge(
        petgraph::graph::NodeIndex::new(a),
        petgraph::graph::NodeIndex::new(b),
        weight,
    );
}

/// Relies on petgraph's IntoEdgeReferences for StableGraph: the iterator
/// hands out each edge present in the graph exactly once, with its endpoints.
#[verifier::external_body]
pub(crate) fn graph_edge_list(g: &StableDiGraph<u64, u64, usize>) -> (r: Vec<(usize, usize)>)
    ensures
        r@.map_values(|e: (usize, usize)| (e.0 as int, e.1 as int)).to_multiset()
            == graph_edge_multiset(*g),
{
    g.edge_references().map(|e| (e.source().index(), e.target().index())).collect()
}

} // verus!
