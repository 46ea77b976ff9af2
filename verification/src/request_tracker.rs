//! The request tracker: find-or-create a node per identity, execute the work
//! only when no success is cached, store the outcome, and record one
//! dependency edge for every observation of a request — cache hits included.
//!
//! One logical thread of control mutates the shared graph and index; a
//! nested run is given the same state with the current parent switched to
//! the identity being resolved, and the parent is restored when the nested
//! work returns.

use vstd::prelude::*;
use vstd::multiset::Multiset;
use vstd::pervasive::cloned;
use std::collections::HashMap;

use crate::request_graph::RequestEdgeType;
use crate::request_graph::RequestError;
use crate::request_graph::RequestGraph;
use crate::request_graph::RequestNode;
use crate::request_graph::RequestResult;

verus! {

broadcast use
    vstd::std_specs::hash::group_hash_axioms,
    vstd::multiset::group_multiset_axioms,
    crate::request_graph::RequestGraph::lemma_wf_facts,
;

/// The request contract. External implementers supply a stable identity and
/// the work itself; the tracker runs the work at most once per identity
/// while the identity keeps succeeding.
pub trait Request<T> {
    /// The identity fingerprint at the specification level. Equal
    /// fingerprints denote substitutable work: only the first stored outcome
    /// for a fingerprint survives.
    spec fn spec_id(&self) -> u64;

    /// The identity fingerprint: pure, deterministic, and stable across
    /// calls for the same logical request.
    fn id(&self) -> (r: u64)
        ensures
            r == self.spec_id(),
    ;

    /// Performs the work. It may recursively run further requests through
    /// the supplied tracker, and returns either a computed value or a
    /// non-empty list of errors. It must be safe to skip entirely (cache
    /// hit). Whatever it does, it leaves the tracker well-formed, with the
    /// same current parent, and only extended — see
    /// [`RequestTracker::extended_by`].
    fn run(&self, tracker: &mut RequestTracker<T>) -> (r: Result<
        RequestResult<T>,
        Vec<RequestError>,
    >)
        requires
            old(tracker).wf(),
        ensures
            final(tracker).wf(),
            final(tracker).parent() == old(tracker).parent(),
            old(tracker).extended_by(*final(tracker)),
            r matches Err(e) ==> e@.len() > 0,
    ;
}

/// Orchestrator for running requests: the dependency graph, the append-only
/// identity index, and the identity currently being resolved (the parent
/// that newly observed dependencies are recorded under).
pub struct RequestTracker<T> {
    parent_request_hash: Option<u64>,
    graph: RequestGraph<T>,
    request_index: HashMap<u64, usize>,
}

impl<T> RequestTracker<T> {
    /// The per-node lifecycle states, in node-index order; node 0 is the root.
    pub closed spec fn nodes(self) -> Seq<RequestNode<T>> {
        self.graph.nodes()
    }

    /// The dependency edges, as (source node, target node) pairs; one entry
    /// per recorded observation.
    pub closed spec fn edges(self) -> Multiset<(int, int)> {
        self.graph.edges()
    }

    /// The append-only mapping from identity to graph node.
    pub closed spec fn index(self) -> Map<u64, usize> {
        self.request_index@
    }

    /// The identity this handle resolves requests under, if any.
    pub closed spec fn parent(self) -> Option<u64> {
        self.parent_request_hash
    }

    /// Whether an identity has a node in the graph.
    pub open spec fn known(self, request_id: u64) -> bool {
        self.index().contains_key(request_id)
    }

    /// The graph node of a known identity.
    pub open spec fn node_of(self, request_id: u64) -> int {
        self.index()[request_id] as int
    }

    /// The lifecycle state of a known identity.
    pub open spec fn state_of(self, request_id: u64) -> RequestNode<T> {
        self.nodes()[self.node_of(request_id)]
    }

    /// The node that records the current computation context: the parent
    /// identity's node, or the root node for a top-level handle.
    pub open spec fn parent_node(self) -> int {
        match self.parent() {
            Some(p) => self.node_of(p),
            None => 0,
        }
    }

    /// Well-formedness: the graph is consistent, every indexed identity maps
    /// to a distinct non-root node, and the current parent (if any) is
    /// indexed.
    pub closed spec fn wf(self) -> bool {
        &&& self.graph.wf()
        &&& forall|id: u64| #[trigger]
            self.index().contains_key(id) ==> 1 <= self.index()[id] < self.nodes().len()
        &&& forall|id1: u64, id2: u64|
            self.index().contains_key(id1) && self.index().contains_key(id2) && id1 != id2
                ==> #[trigger] self.index()[id1] != #[trigger] self.index()[id2]
        &&& match self.parent() {
            Some(p) => self.known(p),
            None => true,
        }
    }

    /// How one tracker state may grow into another over any run: the index
    /// is append-only, nodes are never removed, a `Valid` node keeps its
    /// value forever, the root stays the root, no node returns to
    /// `Incomplete` once settled, every newly created node is already
    /// settled, and edges only accumulate.
    pub open spec fn extended_by(self, post: Self) -> bool {
        &&& forall|k: u64| #[trigger]
            self.index().contains_key(k) ==> post.index().contains_key(k) && post.index()[k]
                == self.index()[k]
        &&& self.nodes().len() <= post.nodes().len()
        &&& forall|i: int|
            0 <= i < self.nodes().len() && self.nodes()[i] is Valid
                ==> #[trigger] post.nodes()[i] == self.nodes()[i]
        &&& forall|i: int|
            0 <= i < self.nodes().len() && self.nodes()[i] is Root
                ==> #[trigger] post.nodes()[i] == self.nodes()[i]
        &&& forall|i: int|
            0 <= i < self.nodes().len() && #[trigger] post.nodes()[i] is Incomplete
                ==> self.nodes()[i] is Incomplete
        &&& forall|i: int|
            self.nodes().len() <= i < post.nodes().len()
                ==> !(#[trigger] post.nodes()[i] is Incomplete)
        &&& self.edges().subset_of(post.edges())
    }
}

impl<T> RequestTracker<T> {
    /// The number of nodes in the graph: the root plus one per observed
    /// identity.
    pub fn node_count(&self) -> (r: usize)
        ensures
            r == self.nodes().len(),
    {
        self.graph.node_count()
    }

    /// The graph node recording an identity, if that identity has been
    /// observed; the root is node 0 and is never an identity's node.
    pub fn node_index_of(&self, request_id: u64) -> (r: Option<usize>)
        ensures
            match r {
                Some(i) => self.known(request_id) && i as int == self.node_of(request_id),
                None => !self.known(request_id),
            },
    {
        match self.request_index.get(&request_id) {
            Some(node_index) => Some(*node_index),
            None => None,
        }
    }

    /// Every dependency edge as a (source node, target node) pair, one entry
    /// per recorded observation — repeated observations of the same
    /// dependency appear repeatedly.
    pub fn edge_list(&self) -> (r: Vec<(usize, usize)>)
        ensures
            r@.map_values(|e: (usize, usize)| (e.0 as int, e.1 as int)).to_multiset()
                == self.edges(),
    {
        self.graph.edge_list()
    }

    /// Whether an identity's node is settled, that is, holds a success or a
    /// failure rather than being absent or still `Incomplete`.
    pub fn is_settled(&self, request_id: u64) -> (r: bool)
        requires
            self.wf(),
        ensures
            r == (self.known(request_id) && (self.state_of(request_id) is Valid
                || self.state_of(request_id) is Error)),
    {
        let node_index: usize = match self.request_index.get(&request_id) {
            Some(node_index) => *node_index,
            None => {
                return false;
            },
        };
        match self.graph.state(node_index) {
            RequestNode::Valid(_) => true,
            RequestNode::Error(_) => true,
            _ => false,
        }
    }
}

impl<T: Clone> RequestTracker<T> {
    /// A fresh tracker: a graph holding only the root node, an empty index,
    /// and no current parent.
    pub fn new() -> (t: Self)
        ensures
            t.wf(),
            t.parent() is None,
            t.index() == Map::<u64, usize>::empty(),
            t.nodes() == seq![RequestNode::<T>::Root],
            t.edges() == Multiset::<(int, int)>::empty(),
    {
        RequestTracker {
            parent_request_hash: None,
            graph: RequestGraph::new(),
            request_index: HashMap::new(),
        }
    }

    /// Runs a request: executes its work unless a success is already cached,
    /// stores the outcome, records one SubRequest edge from the current
    /// parent (or the root) to the request's node, and returns the stored
    /// value or error list.
    pub fn run_request<R: Request<T>>(&mut self, request: &R) -> (r: Result<T, Vec<RequestError>>)
        requires
            old(self).wf(),
        ensures
            final(self).wf(),
            final(self).parent() == old(self).parent(),
            old(self).extended_by(*final(self)),
            final(self).known(request.spec_id()),
            // Node identifiers are stable: a known identity keeps its node,
            // a new identity gets the next index.
            old(self).known(request.spec_id()) ==> final(self).node_of(request.spec_id()) == old(
                self,
            ).node_of(request.spec_id()),
            !old(self).known(request.spec_id()) ==> final(self).node_of(request.spec_id()) == old(
                self,
            ).nodes().len(),
            // The request's node is settled when the call returns: never
            // left `Incomplete`, never the root.
            final(self).state_of(request.spec_id()) is Valid || final(self).state_of(
                request.spec_id(),
            ) is Error,
            // The outcome is exactly what the request's node now stores: a
            // defect state (`Root`, `Incomplete`, a missing node) is never
            // surfaced.
            r matches Ok(v) ==> (final(self).state_of(request.spec_id()) matches
                RequestNode::Valid(sv) && cloned::<T>(sv, v)),
            final(self).state_of(request.spec_id()) is Valid ==> r is Ok,
            r matches Err(e) ==> e@.len() > 0 && (final(self).state_of(request.spec_id()) matches
                RequestNode::Error(l) && l@ == e@),
            // Memoization: a cached success is returned as-is, with nothing
            // re-executed — only the one new edge records the observation.
            old(self).known(request.spec_id()) ==> (old(self).state_of(request.spec_id()) matches
                RequestNode::Valid(v) ==> (final(self).nodes() == old(self).nodes()
                && final(self).index() == old(self).index() && final(self).edges() == old(
                self,
            ).edges().insert((old(self).parent_node(), old(self).node_of(request.spec_id())))
                && (r matches Ok(out) && cloned::<T>(v, out)))),
            // Each run records at least one more edge from the calling
            // context to the request's node (the work may add further ones).
            final(self).edges().count(
                (old(self).parent_node(), final(self).node_of(request.spec_id())),
            ) >= old(self).edges().count(
                (old(self).parent_node(), final(self).node_of(request.spec_id())),
            ) + 1,
    {
        let request_id = request.id();
        let ghost t0: Self = *self;
        if self.prepare_request(request_id) {
            let ghost t1: Self = *self;
            let saved_parent: Option<u64> = self.parent_request_hash;
            self.parent_request_hash = Some(request_id);
            let result = request.run(self);
            let ghost t2: Self = *self;
            self.parent_request_hash = saved_parent;
            self.store_request(request_id, result);
            let ghost t3: Self = *self;
            proof {
                Self::lemma_run_phases(t0, t1, t2, t3, request_id);
            }
        }
        let ghost pre_get: Self = *self;
        let r = self.get_request(request_id);
        proof {
            assert forall|e: (int, int)| t0.edges().count(e) <= self.edges().count(e) by {
                assert(pre_get.edges().count(e) <= self.edges().count(e));
            }
        }
        r
    }

    /// How the three phases of a fresh execution compose: after
    /// find-or-insert (`pre` to `marked`), the work itself (`marked` to
    /// `worked`, an extension that keeps the identity's node `Incomplete`
    /// unless it resolved it), and the store (`worked` to `stored`), the
    /// whole is again an extension of `pre`, with the identity's node
    /// settled.
    proof fn lemma_run_phases(
        pre: Self,
        marked: Self,
        worked: Self,
        stored: Self,
        request_id: u64,
    )
        requires
            pre.wf(),
            marked.wf(),
            worked.wf(),
            stored.wf(),
            marked.known(request_id),
            !(pre.known(request_id) && pre.state_of(request_id) is Valid),
            // find-or-insert
            marked.edges() == pre.edges(),
            pre.known(request_id) ==> marked.index() == pre.index() && marked.nodes()
                == pre.nodes().update(pre.node_of(request_id), RequestNode::Incomplete),
            !pre.known(request_id) ==> marked.index() == pre.index().insert(
                request_id,
                marked.index()[request_id],
            ) && marked.nodes() == pre.nodes().push(RequestNode::Incomplete)
                && marked.node_of(request_id) == pre.nodes().len(),
            // the work
            marked.extended_by(worked),
            // the store
            stored.index() == worked.index(),
            stored.edges() == worked.edges(),
            worked.state_of(request_id) is Valid ==> stored.nodes() == worked.nodes(),
            !(worked.state_of(request_id) is Valid) ==> stored.nodes()
                == worked.nodes().update(worked.node_of(request_id), stored.state_of(request_id))
                && (stored.state_of(request_id) is Valid || stored.state_of(request_id) is Error),
        ensures
            pre.extended_by(stored),
            stored.known(request_id),
            stored.state_of(request_id) is Valid || stored.state_of(request_id) is Error,
            pre.known(request_id) ==> stored.node_of(request_id) == pre.node_of(request_id),
            !pre.known(request_id) ==> stored.node_of(request_id) == pre.nodes().len(),
    {
        let n = marked.node_of(request_id);
        assert(1 <= n < marked.nodes().len());
        assert forall|k: u64| #[trigger] pre.index().contains_key(k) implies stored.index().contains_key(k)
            && pre.index()[k] == stored.index()[k] by {
            assert(marked.index().contains_key(k) && marked.index()[k] == pre.index()[k]);
            assert(worked.index().contains_key(k) && worked.index()[k] == marked.index()[k]);
        }
        assert(worked.index().contains_key(request_id) && worked.index()[request_id]
            == marked.index()[request_id]);
        assert(worked.node_of(request_id) == n);
        assert(stored.node_of(request_id) == n);
        if pre.known(request_id) {
            assert(n == pre.node_of(request_id));
            assert(!(pre.nodes()[n] is Valid));
        } else {
            assert(n == pre.nodes().len());
        }
        assert(stored.nodes()[n] is Valid || stored.nodes()[n] is Error);
        assert forall|i: int|
            0 <= i < pre.nodes().len() && (pre.nodes()[i] is Valid || pre.nodes()[i] is
            Root) implies #[trigger] stored.nodes()[i] == pre.nodes()[i] by {
            if pre.nodes()[i] is Root {
                assert(i == 0);
            }
            assert(i != n);
            assert(marked.nodes()[i] == pre.nodes()[i]);
            assert(worked.nodes()[i] == marked.nodes()[i]);
            assert(stored.nodes()[i] == worked.nodes()[i]);
        }
        assert forall|i: int|
            0 <= i < pre.nodes().len() && #[trigger] stored.nodes()[i] is
            Incomplete implies pre.nodes()[i] is Incomplete by {
            assert(i != n);
            assert(worked.nodes()[i] is Incomplete);
            assert(marked.nodes()[i] is Incomplete);
            assert(pre.nodes()[i] == marked.nodes()[i]);
        }
        assert forall|i: int| pre.nodes().len() <= i < stored.nodes().len() implies !(
        #[trigger] stored.nodes()[i] is Incomplete) by {
            if i != n {
                assert(marked.nodes().len() <= i);
                assert(!(worked.nodes()[i] is Incomplete));
                assert(stored.nodes()[i] == worked.nodes()[i]);
            }
        }
        assert forall|e: (int, int)| pre.edges().count(e) <= stored.edges().count(e) by {
            assert(marked.edges().count(e) <= worked.edges().count(e));
        }
    }

    /// Find-or-insert the node for an identity and decide whether the work
    /// must execute: not if the node already holds a success; otherwise the
    /// node is (re)set to `Incomplete` and execution is signalled. A failed
    /// node is re-attempted; only successes are cached as final.
    fn prepare_request(&mut self, request_id: u64) -> (execute: bool)
        requires
            old(self).wf(),
        ensures
            final(self).wf(),
            final(self).parent() == old(self).parent(),
            final(self).edges() == old(self).edges(),
            final(self).known(request_id),
            execute == !(old(self).known(request_id) && old(self).state_of(request_id) is Valid),
            !execute ==> final(self).nodes() == old(self).nodes() && final(self).index() == old(
                self,
            ).index(),
            execute && old(self).known(request_id) ==> final(self).index() == old(self).index()
                && final(self).nodes() == old(self).nodes().update(
                old(self).node_of(request_id),
                RequestNode::Incomplete,
            ),
            execute && !old(self).known(request_id) ==> final(self).index() == old(
                self,
            ).index().insert(request_id, old(self).nodes().len() as usize) && final(self).nodes()
                == old(self).nodes().push(RequestNode::Incomplete) && final(self).node_of(
                request_id,
            ) == old(self).nodes().len(),
    {
        let existing: Option<usize> = match self.request_index.get(&request_id) {
            Some(node_index) => Some(*node_index),
            None => None,
        };
        match existing {
            Some(node_index) => {
                let already_valid = match self.graph.state(node_index) {
                    RequestNode::Valid(_) => true,
                    _ => false,
                };
                if already_valid {
                    return false;
                }
                self.graph.set_state(node_index, RequestNode::Incomplete);
                proof {
                    assert forall|id: u64| #[trigger] self.index().contains_key(id) implies 1
                        <= self.index()[id] < self.nodes().len() by {
                        assert(old(self).index().contains_key(id));
                    }
                    assert forall|id1: u64, id2: u64|
                        self.index().contains_key(id1) && self.index().contains_key(id2) && id1
                            != id2 implies #[trigger] self.index()[id1] != #[trigger] self.index()[id2] by {
                        assert(old(self).index().contains_key(id1));
                        assert(old(self).index().contains_key(id2));
                    }
                }
                true
            },
            None => {
                let node_index = self.graph.add_node(request_id, RequestNode::Incomplete);
                self.request_index.insert(request_id, node_index);
                proof {
                    assert forall|id: u64| #[trigger] self.index().contains_key(id) implies 1
                        <= self.index()[id] < self.nodes().len() by {
                        if id != request_id {
                            assert(old(self).index().contains_key(id));
                        }
                    }
                    assert forall|id1: u64, id2: u64|
                        self.index().contains_key(id1) && self.index().contains_key(id2) && id1
                            != id2 implies #[trigger] self.index()[id1] != #[trigger] self.index()[id2] by {
                        if id1 != request_id {
                            assert(old(self).index().contains_key(id1));
                        }
                        if id2 != request_id {
                            assert(old(self).index().contains_key(id2));
                        }
                    }
                }
                true
            },
        }
    }

    /// Store the outcome of an executed request into its node. Storing into
    /// a node that already holds a success is a silent no-op: this guards
    /// re-entrant self-resolution, where the work itself already resolved
    /// the identity.
    fn store_request(
        &mut self,
        request_id: u64,
        result: Result<RequestResult<T>, Vec<RequestError>>,
    )
        requires
            old(self).wf(),
            old(self).known(request_id),
            result matches Err(e) ==> e@.len() > 0,
        ensures
            final(self).wf(),
            final(self).parent() == old(self).parent(),
            final(self).index() == old(self).index(),
            final(self).edges() == old(self).edges(),
            old(self).state_of(request_id) is Valid ==> final(self).nodes() == old(self).nodes(),
            !(old(self).state_of(request_id) is Valid) ==> final(self).nodes() == old(
                self,
            ).nodes().update(
                old(self).node_of(request_id),
                match result {
                    Ok(value) => RequestNode::Valid(value.result),
                    Err(errors) => RequestNode::Error(errors),
                },
            ),
    {
        let node_index: usize = *self.request_index.get(&request_id).unwrap();
        let already_valid = match self.graph.state(node_index) {
            RequestNode::Valid(_) => true,
            _ => false,
        };
        if already_valid {
            return;
        }
        let state = match result {
            Ok(value) => RequestNode::Valid(value.result),
            Err(errors) => RequestNode::Error(errors),
        };
        self.graph.set_state(node_index, state);
    }

    /// Look up the request's node, record one SubRequest edge from the
    /// current parent (or the root) to it — unconditionally, cache hits
    /// included, because this computation used the value — and surface the
    /// stored outcome. A missing node, or a `Root` or `Incomplete` state
    /// observed here, is a defect and yields the invariant-violation error.
    fn get_request(&mut self, request_id: u64) -> (r: Result<T, Vec<RequestError>>)
        requires
            old(self).wf(),
        ensures
            final(self).wf(),
            final(self).parent() == old(self).parent(),
            final(self).index() == old(self).index(),
            final(self).nodes() == old(self).nodes(),
            !old(self).known(request_id) ==> final(self).edges() == old(self).edges() && (
            r matches Err(e) && e@ == seq![RequestError::Impossible]),
            old(self).known(request_id) ==> final(self).edges() == old(self).edges().insert(
                (old(self).parent_node(), old(self).node_of(request_id)),
            ),
            old(self).known(request_id) ==> (old(self).state_of(request_id) matches
                RequestNode::Valid(v) ==> (r matches Ok(out) && cloned::<T>(v, out))),
            old(self).known(request_id) ==> (old(self).state_of(request_id) matches
                RequestNode::Error(l) ==> (r matches Err(e) && e@ == l@)),
            old(self).known(request_id) && (old(self).state_of(request_id) is Root || old(
                self,
            ).state_of(request_id) is Incomplete) ==> (r matches Err(e) && e@ == seq![
                RequestError::Impossible,
            ]),
    {
        let node_index: usize = match self.request_index.get(&request_id) {
            Some(node_index) => *node_index,
            None => {
                return Err(vec![RequestError::Impossible]);
            },
        };
        let parent_node_index: usize = match self.parent_request_hash {
            Some(parent_request_id) => *self.request_index.get(&parent_request_id).unwrap(),
            None => 0,
        };
        self.graph.add_edge(parent_node_index, node_index, RequestEdgeType::SubRequest);
        match self.graph.state(node_index) {
            RequestNode::Root => Err(vec![RequestError::Impossible]),
            RequestNode::Incomplete => Err(vec![RequestError::Impossible]),
            RequestNode::Error(errors) => Err(copy_errors(errors)),
            RequestNode::Valid(value) => Ok(value.clone()),
        }
    }
}

/// An element-for-element copy of a stored error list, so the caller gets
/// the errors while the node keeps them.
fn copy_errors(errors: &Vec<RequestError>) -> (r: Vec<RequestError>)
    ensures
        r@ == errors@,
{
    let mut out: Vec<RequestError> = Vec::new();
    let mut i: usize = 0;
    while i < errors.len()
        invariant
            i <= errors.len(),
            out@ == errors@.subrange(0, i as int),
        decreases errors.len() - i,
    {
        out.push(errors[i]);
        i += 1;
    }
    proof {
        assert(out@ =~= errors@);
    }
    out
}

/// Law: success is permanent. Once an identity's node holds `Valid`, every
/// tracker state that extends this one keeps the identical stored value for
/// that identity — a later run returns it without the work executing again,
/// and the node never reverts to `Error` or `Incomplete`.
pub proof fn lemma_valid_is_permanent<T>(
    pre: RequestTracker<T>,
    post: RequestTracker<T>,
    request_id: u64,
)
    requires
        pre.wf(),
        pre.extended_by(post),
        pre.known(request_id),
        pre.state_of(request_id) is Valid,
    ensures
        post.known(request_id),
        post.node_of(request_id) == pre.node_of(request_id),
        post.state_of(request_id) == pre.state_of(request_id),
{
    assert(pre.index().contains_key(request_id));
}

/// Law: extension composes. What two runs do in sequence is itself an
/// extension, so the guarantees `extended_by` carries — append-only index,
/// frozen successes, no return to `Incomplete`, settled new nodes, growing
/// edges — hold across any chain of runs.
pub proof fn lemma_extended_by_trans<T>(
    a: RequestTracker<T>,
    b: RequestTracker<T>,
    c: RequestTracker<T>,
)
    requires
        a.extended_by(b),
        b.extended_by(c),
    ensures
        a.extended_by(c),
{
    assert forall|k: u64| #[trigger] a.index().contains_key(k) implies c.index().contains_key(k)
        && c.index()[k] == a.index()[k] by {
        assert(b.index().contains_key(k) && b.index()[k] == a.index()[k]);
    }
    assert forall|i: int|
        0 <= i < a.nodes().len() && a.nodes()[i] is Valid implies #[trigger] c.nodes()[i]
        == a.nodes()[i] by {
        assert(b.nodes()[i] == a.nodes()[i]);
        assert(c.nodes()[i] == b.nodes()[i]);
    }
    assert forall|i: int|
        0 <= i < a.nodes().len() && a.nodes()[i] is Root implies #[trigger] c.nodes()[i]
        == a.nodes()[i] by {
        assert(b.nodes()[i] == a.nodes()[i]);
        assert(c.nodes()[i] == b.nodes()[i]);
    }
    assert forall|i: int|
        0 <= i < a.nodes().len() && #[trigger] c.nodes()[i] is Incomplete implies a.nodes()[i] is
        Incomplete by {
        assert(b.nodes()[i] is Incomplete);
    }
    assert forall|i: int| a.nodes().len() <= i < c.nodes().len() implies !(#[trigger] c.nodes()[i] is
    Incomplete) by {
        if i < b.nodes().len() {
            assert(!(b.nodes()[i] is Incomplete));
        }
    }
    assert forall|e: (int, int)| a.edges().count(e) <= c.edges().count(e) by {
        assert(a.edges().count(e) <= b.edges().count(e));
    }
}

/// Law: a run never leaves a freshly created node unresolved. Every node
/// that exists after an extension but not before it is settled — `Valid` or
/// `Error` — so an identity first observed during a run is fully created
/// and resolved within that same run, never left `Incomplete`.
pub proof fn lemma_new_nodes_are_settled<T>(
    pre: RequestTracker<T>,
    post: RequestTracker<T>,
    i: int,
)
    requires
        pre.wf(),
        post.wf(),
        pre.extended_by(post),
        pre.nodes().len() <= i < post.nodes().len(),
    ensures
        post.nodes()[i] is Valid || post.nodes()[i] is Error,
{
    assert(!(post.nodes()[i] is Incomplete));
    assert(i >= 1);
    assert(!(post.nodes()[i] is Root));
}

} // verus!
