//! A memoizing request tracker: the incremental-computation core of a build
//! pipeline. It runs each unit of work ("request") at most once per distinct
//! identity, records a dependency edge for every observation of a request —
//! cache hits included — and relays failures without re-running work that
//! already succeeded. Successes are cached permanently; failures are
//! re-attempted on the next run for the same identity.

mod graph_store;

pub mod bundler;
pub mod request_graph;
pub mod request_tracker;

pub use request_graph::RequestEdgeType;
pub use request_graph::RequestError;
pub use request_graph::RequestGraph;
pub use request_graph::RequestNode;
pub use request_graph::RequestResult;
pub use request_tracker::Request;
pub use request_tracker::RequestTracker;
