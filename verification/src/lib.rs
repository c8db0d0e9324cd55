//! Verified core of a per-user contribution report across the repositories of
//! a code-hosting organization.
//!
//! The library holds the aggregation pipeline's logic: the data model of
//! commits, pull requests and activity entries, the per-repository activity
//! builder (a state machine driven by fetch results), the completion barrier
//! that collects one result per dispatched repository, the adjacency-based
//! deduplication of entries, and the textual rendering of the final report.
//! Network calls against the hosting platform's API are made by an unverified
//! driver that feeds their results into the state machine as plain values.

pub mod aggregate;
pub mod builder;
pub mod model;
pub mod render;
pub mod window;
