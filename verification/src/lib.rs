//! A fire-and-forget analytics client built around a single-consumer worker.
//!
//! The worker owns one ordered queue and at most one live consumer. Producers
//! enqueue items without waiting for them to be handled; a dead consumer is
//! revived by the next submission. Everything here is sequential and
//! deterministic: the embedding program supplies the execution contexts and
//! the network, and drives the worker through its transitions.

pub mod model;
pub mod json;
pub mod laws;
pub mod segment;
pub mod worker;

pub use worker::{SingleWorker, WorkerClosure};
pub use json::{JsonObject, ToJsonString};
pub use segment::{Segment, SegmentQuery};
