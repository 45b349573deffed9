//! Declarative reconciliation engine for a cloud deployment service.
//!
//! The library diffs locally declared resources (certificates, environment
//! variables, pipeline variables) against the remote service's reported
//! state, classifies each item into create/update/skip/delete, and
//! aggregates per-item outcomes into a final exit status. All network and
//! file I/O lives outside the library; callers hand in plain values.

pub mod certmeta;
pub mod crypto;
pub mod decision;
pub mod domains;
pub mod engine;
pub mod errors;
pub mod logs;
pub mod matcher;
pub mod models;
pub mod paths;
pub mod preflight;
pub mod retry;
pub mod serial;
pub mod strutil;
pub mod variables;
