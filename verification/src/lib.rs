//! Reconstruction of per-block performance records from two log streams.
//!
//! A consensus-engine log yields one initial record per executed block;
//! an application-execution log yields partial per-phase updates keyed by
//! block height.  The records are merged in a key-value store, a derive
//! pass computes inter-block times, and a report pass emits the records
//! as comma-separated lines in ascending height order.

pub mod application;
pub mod codec;
pub mod consensus;
pub mod engine;
pub mod error;
pub mod pipeline;
pub mod record;
pub mod report;
pub mod text;

pub use record::BlockRecord;
