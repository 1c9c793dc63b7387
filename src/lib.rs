//! A bounded-concurrency record-processing engine: records, storage backends
//! with a write-through cache, staged pipelines and an admission-limited
//! processor, each with its behaviour stated as a contract.

pub mod json;
pub mod error;
pub mod config;
mod sources;
pub mod record;
pub mod table;
pub mod storage;
pub mod validation;
pub mod text;
pub mod transform;
pub mod pipeline;
pub mod processor;
pub mod metrics;

use vstd::prelude::*;

verus! {

/// Library version.
pub const VERSION: &'static str = "0.1.0";

} // verus!
