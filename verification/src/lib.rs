//! Catalog of immutable data files for log streams: manifests, per-stream
//! snapshots, time-range pruning, and the rules that drive alert evaluation.
//!
//! All timestamps are milliseconds since the Unix epoch, in UTC.

pub mod text;
pub mod timefilter;
pub mod manifest;
pub mod snapshot;
pub mod paths;
pub mod pruner;
pub mod alerts;
pub mod alert_rules;
pub mod alert_state;
pub mod notify;
pub mod status;
pub mod storage;
pub mod routing;
pub mod correlation;
pub mod streams;
