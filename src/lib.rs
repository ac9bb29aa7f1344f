//! Supervision of a long-running worker node: parsing of its report lines,
//! aggregation of its CPU use, the telemetry snapshot that observers read, and
//! the decisions of starting, watching and stopping it.

pub mod config;
pub mod eth;
pub mod hexfmt;
pub mod node;
pub mod report_text;
pub mod sampler;
pub mod scan;
pub mod supervisor;
pub mod telemetry;
