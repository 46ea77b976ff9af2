use std::cell::Cell;

use request_tracker::Request;
use request_tracker::RequestError;
use request_tracker::RequestResult;
use request_tracker::RequestTracker;

/// A request whose work returns a fixed value and counts its invocations.
struct ValueRequest {
    id: u64,
    value: &'static str,
    runs: Cell<u32>,
}

impl ValueRequest {
    fn new(id: u64, value: &'static str) -> ValueRequest {
        ValueRequest { id, value, runs: Cell::new(0) }
    }
}

impl Request<&'static str> for ValueRequest {
    // The identity at the specification level; mirrors `id`.
    fn spec_id(&self) -> u64 {
        self.id
    }

    fn id(&self) -> u64 {
        self.id
    }

    fn run(
        &self,
        _tracker: &mut RequestTracker<&'static str>,
    ) -> Result<RequestResult<&'static str>, Vec<RequestError>> {
        self.runs.set(self.runs.get() + 1);
        Ok(RequestResult { result: self.value })
    }
}

/// A request whose work first runs another request, then returns its own
/// value.
struct WrapperRequest<'a> {
    id: u64,
    inner: &'a ValueRequest,
    value: &'static str,
    runs: Cell<u32>,
}

impl<'a> Request<&'static str> for WrapperRequest<'a> {
    // The identity at the specification level; mirrors `id`.
    fn spec_id(&self) -> u64 {
        self.id
    }

    fn id(&self) -> u64 {
        self.id
    }

    fn run(
        &self,
        tracker: &mut RequestTracker<&'static str>,
    ) -> Result<RequestResult<&'static str>, Vec<RequestError>> {
        self.runs.set(self.runs.get() + 1);
        let inner = tracker.run_request(self.inner);
        assert!(inner.is_ok());
        Ok(RequestResult { result: self.value })
    }
}

/// A request whose work always fails with one domain error.
struct FailingRequest {
    id: u64,
    message: &'static str,
    runs: Cell<u32>,
}

impl Request<&'static str> for FailingRequest {
    // The identity at the specification level; mirrors `id`.
    fn spec_id(&self) -> u64 {
        self.id
    }

    fn id(&self) -> u64 {
        self.id
    }

    fn run(
        &self,
        _tracker: &mut RequestTracker<&'static str>,
    ) -> Result<RequestResult<&'static str>, Vec<RequestError>> {
        self.runs.set(self.runs.get() + 1);
        Err(vec![RequestError::Domain(self.message)])
    }
}

/// A request whose work fails on the first invocation and succeeds from the
/// second on.
struct FlakyRequest {
    id: u64,
    value: &'static str,
    runs: Cell<u32>,
}

impl Request<&'static str> for FlakyRequest {
    // The identity at the specification level; mirrors `id`.
    fn spec_id(&self) -> u64 {
        self.id
    }

    fn id(&self) -> u64 {
        self.id
    }

    fn run(
        &self,
        _tracker: &mut RequestTracker<&'static str>,
    ) -> Result<RequestResult<&'static str>, Vec<RequestError>> {
        self.runs.set(self.runs.get() + 1);
        if self.runs.get() == 1 {
            Err(vec![RequestError::Domain("transient")])
        } else {
            Ok(RequestResult { result: self.value })
        }
    }
}

fn count_edges(edges: &[(usize, usize)], source: usize, target: usize) -> usize {
    edges.iter().filter(|e| **e == (source, target)).count()
}

#[test]
fn single_request_returns_value_and_records_one_edge() {
    let mut tracker: RequestTracker<&'static str> = RequestTracker::new();
    let a = ValueRequest::new(1, "x");

    let result = tracker.run_request(&a);

    assert_eq!(result, Ok("x"));
    assert_eq!(a.runs.get(), 1);
    assert_eq!(tracker.node_count(), 2);
    assert_eq!(tracker.node_index_of(1), Some(1));
    let edges = tracker.edge_list();
    assert_eq!(edges.len(), 1);
    assert_eq!(count_edges(&edges, 0, 1), 1);
}

#[test]
fn nested_request_records_sub_request_edge() {
    let mut tracker: RequestTracker<&'static str> = RequestTracker::new();
    let a = ValueRequest::new(1, "x");
    let b = WrapperRequest { id: 2, inner: &a, value: "y", runs: Cell::new(0) };

    let result = tracker.run_request(&b);

    assert_eq!(result, Ok("y"));
    assert_eq!(b.runs.get(), 1);
    assert_eq!(a.runs.get(), 1);
    let node_b = tracker.node_index_of(2).unwrap();
    let node_a = tracker.node_index_of(1).unwrap();
    let edges = tracker.edge_list();
    assert_eq!(edges.len(), 2);
    assert_eq!(count_edges(&edges, 0, node_b), 1);
    assert_eq!(count_edges(&edges, node_b, node_a), 1);
}

#[test]
fn second_run_is_a_cache_hit_with_its_own_edge() {
    let mut tracker: RequestTracker<&'static str> = RequestTracker::new();
    let a = ValueRequest::new(1, "x");

    let first = tracker.run_request(&a);
    let second = tracker.run_request(&a);

    assert_eq!(first, Ok("x"));
    assert_eq!(second, Ok("x"));
    assert_eq!(a.runs.get(), 1);
    assert_eq!(tracker.node_count(), 2);
    let edges = tracker.edge_list();
    assert_eq!(edges.len(), 2);
    assert_eq!(count_edges(&edges, 0, 1), 2);
}

#[test]
fn edges_accumulate_per_observation_not_per_execution() {
    let mut tracker: RequestTracker<&'static str> = RequestTracker::new();
    let a = ValueRequest::new(1, "x");

    for _ in 0..3 {
        assert_eq!(tracker.run_request(&a), Ok("x"));
    }

    assert_eq!(a.runs.get(), 1);
    let edges = tracker.edge_list();
    assert_eq!(edges.len(), 3);
    assert_eq!(count_edges(&edges, 0, 1), 3);
}

#[test]
fn failed_request_relays_errors_and_is_reattempted() {
    let mut tracker: RequestTracker<&'static str> = RequestTracker::new();
    let c = FailingRequest { id: 3, message: "boom", runs: Cell::new(0) };

    let first = tracker.run_request(&c);
    assert_eq!(first, Err(vec![RequestError::Domain("boom")]));
    assert_eq!(c.runs.get(), 1);

    let second = tracker.run_request(&c);
    assert_eq!(second, Err(vec![RequestError::Domain("boom")]));
    assert_eq!(c.runs.get(), 2);
}

#[test]
fn failure_then_success_becomes_permanent() {
    let mut tracker: RequestTracker<&'static str> = RequestTracker::new();
    let f = FlakyRequest { id: 6, value: "fixed", runs: Cell::new(0) };

    assert_eq!(
        tracker.run_request(&f),
        Err(vec![RequestError::Domain("transient")])
    );
    assert_eq!(tracker.run_request(&f), Ok("fixed"));
    assert_eq!(f.runs.get(), 2);

    assert_eq!(tracker.run_request(&f), Ok("fixed"));
    assert_eq!(f.runs.get(), 2);
}

#[test]
fn fresh_identity_is_settled_within_the_parent_run() {
    let mut tracker: RequestTracker<&'static str> = RequestTracker::new();
    let e = ValueRequest::new(5, "fresh");
    let d = WrapperRequest { id: 4, inner: &e, value: "d", runs: Cell::new(0) };

    assert_eq!(tracker.node_index_of(5), None);
    let result = tracker.run_request(&d);

    assert_eq!(result, Ok("d"));
    assert!(tracker.node_index_of(5).is_some());
    assert!(tracker.is_settled(5));
    assert!(tracker.is_settled(4));
}

#[test]
fn unobserved_identity_is_not_settled() {
    let tracker: RequestTracker<&'static str> = RequestTracker::new();
    assert!(!tracker.is_settled(42));
    assert_eq!(tracker.node_count(), 1);
    assert_eq!(tracker.edge_list().len(), 0);
}

/// The tracker is generic over the value: the same machinery with plain
/// integers.
struct NumberRequest {
    id: u64,
    value: u64,
}

impl Request<u64> for NumberRequest {
    // The identity at the specification level; mirrors `id`.
    fn spec_id(&self) -> u64 {
        self.id
    }

    fn id(&self) -> u64 {
        self.id
    }

    fn run(
        &self,
        _tracker: &mut RequestTracker<u64>,
    ) -> Result<RequestResult<u64>, Vec<RequestError>> {
        Ok(RequestResult { result: self.value })
    }
}

#[test]
fn tracker_memoizes_integer_values_too() {
    let mut tracker: RequestTracker<u64> = RequestTracker::new();
    let n = NumberRequest { id: 9, value: 77 };

    assert_eq!(tracker.run_request(&n), Ok(77));
    assert_eq!(tracker.run_request(&n), Ok(77));
    assert_eq!(count_edges(&tracker.edge_list(), 0, 1), 2);
}
