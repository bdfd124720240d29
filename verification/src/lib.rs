//! Incremental export of a browser's visit history.
//!
//! The library holds the verified core of the pipeline: the durable cursor
//! state and its on-disk codec, the extraction of new visit records, the
//! rendering of an export batch, and the per-profile orchestration rules.
//! File and database access stay outside; they hand the library plain values.

pub mod codec;
pub mod error;
pub mod export;
pub mod extract;
pub mod num;
pub mod run;
pub mod state;
