//! The verified core of a benchmark dashboard.
//!
//! Workload invocations are recorded in a relational database and shown as
//! web pages. This crate holds the decisions of that service: which statement
//! is sent next, what a reply means, how measurements are compared and what
//! the pages show. It performs no input or output of its own.

pub mod charts;
pub mod commits;
pub mod config;
pub mod dates;
pub mod deadlines;
pub mod error;
pub mod filters;
pub mod flow;
pub mod home;
pub mod ids;
pub mod invocations;
pub mod join;
pub mod listing;
pub mod lists;
pub mod machines;
pub mod model;
pub mod progress;
pub mod query;
pub mod report;
pub mod running;
pub mod runs;
pub mod schema;
pub mod span_map;
pub mod stats;
pub mod status;
pub mod text;
pub mod times;
pub mod units;
pub mod view_span;
pub mod view_spans;
pub mod workloads;
