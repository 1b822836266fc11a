//! Task queueing and lifecycle protocol for an asynchronous video-stylization
//! relay: a producer persists and enqueues stylization tasks, workers dispatch
//! them to an HTTP backend and report outcomes, and a reconciler folds the
//! outcomes back into the persisted record and a user notification.
//!
//! The crate verifies the protocol logic: the task data model and its
//! lifecycle invariants, the wire codec for queued tasks, and the decision
//! functions of the producer, worker and reconciler pipelines. The broker,
//! store, chat platform and HTTP transport are external collaborators driven
//! from unverified glue code.

pub mod broker;
pub mod codec;
pub mod producer;
pub mod reconciler;
pub mod schemas;
pub mod textenc;
pub mod worker;
