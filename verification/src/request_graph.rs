//! The request graph and its vocabulary: per-request lifecycle states, the
//! one dependency edge kind, the error taxonomy, and the directed multigraph
//! that records how requests invoked one another.

use vstd::prelude::*;
use vstd::multiset::Multiset;
use petgraph::stable_graph::StableDiGraph;

use crate::graph_store::graph_add_edge;
use crate::graph_store::graph_add_node;
use crate::graph_store::graph_edge_list;
use crate::graph_store::graph_edge_multiset;
use crate::graph_store::graph_is_compact;
use crate::graph_store::graph_new;
use crate::graph_store::graph_node_set;
use crate::graph_store::graph_slot_count;

verus! {

/// Lifecycle state of one node in the request graph.
///
/// A node is created `Incomplete`, settles to `Valid` or `Error`, and once
/// `Valid` never changes again; an `Error` node is re-attempted on the next
/// run for its identity. `Root` marks the single sentinel entry node.
pub enum RequestNode<T> {
    /// The sentinel entry node; exactly one exists and it holds no value.
    Root,
    /// Placeholder while a request is being resolved; no usable value.
    Incomplete,
    /// Terminal success, holding the computed value.
    Valid(T),
    /// Failure, holding the non-empty list of errors the work produced.
    /// Re-attemptable: the next run for this identity executes again.
    Error(Vec<RequestError>),
}

/// The one kind of edge the graph records: the target request was invoked
/// while the source request was being resolved.
#[derive(Clone, Copy, PartialEq, Eq, Debug)]
pub enum RequestEdgeType {
    SubRequest,
}

/// Errors surfaced by the tracker.
#[derive(Clone, Copy, PartialEq, Eq, Debug)]
pub enum RequestError {
    /// Invariant violation inside the tracker: a node missing or unresolved
    /// where a terminal state was expected. Always a defect, never a
    /// legitimate domain failure.
    Impossible,
    /// An opaque failure produced by a request's own work; the tracker only
    /// stores and relays it.
    Domain(&'static str),
}

/// What a request's work hands back on success.
pub struct RequestResult<T> {
    pub result: T,
}

/// A directed multigraph of request nodes. Node 0 is always the sentinel
/// root; every other node records one identity's lifecycle state. Edges are
/// not deduplicated: each observation of a dependency contributes its own
/// edge, including repeated cache hits.
pub struct RequestGraph<T> {
    graph: StableDiGraph<u64, u64, usize>,
    states: Vec<RequestNode<T>>,
}

/// The edge weight stored for every recorded edge; the graph has the one
/// edge kind, `RequestEdgeType::SubRequest`.
const SUB_REQUEST_EDGE_WEIGHT: u64 = 0;

impl<T> RequestGraph<T> {
    /// The per-node lifecycle states, in node-index order; index 0 is the root.
    pub closed spec fn nodes(self) -> Seq<RequestNode<T>> {
        self.states@
    }

    /// The dependency edges, as (source node, target node) pairs.
    pub closed spec fn edges(self) -> Multiset<(int, int)> {
        graph_edge_multiset(self.graph)
    }

    /// Internal consistency: the backing graph's node indices are exactly the
    /// positions of `states`, node 0 is the only root, and every error list
    /// is non-empty.
    pub closed spec fn wf(self) -> bool {
        &&& graph_slot_count(self.graph) == self.states@.len()
        &&& graph_is_compact(self.graph)
        &&& self.states@.len() >= 1
        &&& self.states@[0] is Root
        &&& forall|i: int| 1 <= i < self.states@.len() ==> !(#[trigger] self.states@[i] is Root)
        &&& forall|i: int| 0 <= i < self.states@.len()
            ==> (#[trigger] self.states@[i] matches RequestNode::Error(l) ==> l@.len() > 0)
    }

    /// What well-formedness guarantees to callers: there is at least the
    /// root node, it sits alone at index 0, and every error list is
    /// non-empty.
    pub broadcast proof fn lemma_wf_facts(g: Self)
        requires
            #[trigger] g.wf(),
        ensures
            g.nodes().len() >= 1,
            g.nodes()[0] is Root,
            forall|i: int| 1 <= i < g.nodes().len() ==> !(#[trigger] g.nodes()[i] is Root),
            forall|i: int|
                0 <= i < g.nodes().len()
                    ==> (#[trigger] g.nodes()[i] matches RequestNode::Error(l) ==> l@.len() > 0),
    {
    }

    /// A fresh graph holding only the root node and no edges.
    pub fn new() -> (g: Self)
        ensures
            g.wf(),
            g.nodes() == seq![RequestNode::<T>::Root],
            g.edges() == Multiset::<(int, int)>::empty(),
    {
        let mut graph = graph_new();
        proof {
            assert(graph_node_set(graph) =~= Set::new(|i: int| 0 <= i < 0));
        }
        let root = graph_add_node(&mut graph, 0);
        let mut states: Vec<RequestNode<T>> = Vec::new();
        states.push(RequestNode::Root);
        let g = RequestGraph { graph, states };
        proof {
            assert(graph_node_set(g.graph) =~= Set::new(|i: int| 0 <= i < 1));
            assert(g.nodes() =~= seq![RequestNode::<T>::Root]);
        }
        g
    }

    /// Appends a node for a newly observed identity and returns its index,
    /// which is the old node count.
    pub fn add_node(&mut self, request_id: u64, state: RequestNode<T>) -> (r: usize)
        requires
            old(self).wf(),
            !(state is Root),
            state matches RequestNode::Error(l) ==> l@.len() > 0,
        ensures
            final(self).wf(),
            r == old(self).nodes().len(),
            final(self).nodes() == old(self).nodes().push(state),
            final(self).edges() == old(self).edges(),
    {
        let r = graph_add_node(&mut self.graph, request_id);
        self.states.push(state);
        proof {
            assert(graph_node_set(self.graph) =~= Set::new(
                |i: int| 0 <= i < graph_slot_count(self.graph),
            ));
        }
        r
    }

    /// Overwrites the state of an existing non-root node.
    pub fn set_state(&mut self, node_index: usize, state: RequestNode<T>)
        requires
            old(self).wf(),
            1 <= node_index < old(self).nodes().len(),
            !(state is Root),
            state matches RequestNode::Error(l) ==> l@.len() > 0,
        ensures
            final(self).wf(),
            final(self).nodes() == old(self).nodes().update(node_index as int, state),
            final(self).edges() == old(self).edges(),
    {
        self.states.set(node_index, state);
    }

    /// Reads the state of a node.
    pub fn state(&self, node_index: usize) -> (r: &RequestNode<T>)
        requires
            node_index < self.nodes().len(),
        ensures
            *r == self.nodes()[node_index as int],
    {
        &self.states[node_index]
    }

    /// Records one edge of the given kind from `source` to `target`;
    /// parallel edges accumulate, one per recorded observation.
    pub fn add_edge(&mut self, source: usize, target: usize, kind: RequestEdgeType)
        requires
            old(self).wf(),
            source < old(self).nodes().len(),
            target < old(self).nodes().len(),
        ensures
            final(self).wf(),
            final(self).nodes() == old(self).nodes(),
            final(self).edges() == old(self).edges().insert((source as int, target as int)),
    {
        let weight: u64 = match kind {
            RequestEdgeType::SubRequest => SUB_REQUEST_EDGE_WEIGHT,
        };
        graph_add_edge(&mut self.graph, source, target, weight);
    }

    /// The number of nodes, the root included.
    pub fn node_count(&self) -> (r: usize)
        ensures
            r == self.nodes().len(),
    {
        self.states.len()
    }

    /// Every recorded edge as a (source node, target node) pair, one entry
    /// per observation.
    pub fn edge_list(&self) -> (r: Vec<(usize, usize)>)
        ensures
            r@.map_values(|e: (usize, usize)| (e.0 as int, e.1 as int)).to_multiset()
                == self.edges(),
    {
        graph_edge_list(&self.graph)
    }
}

} // verus!
