//! Completion tracking for a CI/CD pod sidecar.
//!
//! The sidecar watches the containers of a single pod, classifies each
//! container's lifecycle phase on every poll tick, reports each step
//! container's outcome exactly once when it terminates, and decides when the
//! pod as a whole is finished and whether a pipeline-wide success
//! notification should be sent.
//!
//! This crate holds the decision core: phase classification, the completion
//! tracker, check-run id resolution, and report construction. The process
//! shell (Kubernetes API access, HTTP transport, configuration) lives
//! outside and feeds the core plain values.

pub mod classify;
pub mod client;
pub mod engine;
pub mod errors;
pub mod report;
pub mod resolve;
pub mod run;
pub mod text;
pub mod track;
