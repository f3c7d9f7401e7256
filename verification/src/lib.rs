//! Collects a process's trace spans and events into flat, attribute-complete
//! batches and prepares their delivery to the New Relic ingestion endpoints
//! under a strict retry, backoff and size-adaptation protocol.
//!
//! The aggregation engine lives in [`layer`]; the delivery state machine,
//! request building and flush-cycle reconciliation in [`api`]; the wire
//! records and their attribute-merge semantics in [`types`]; the exact JSON
//! rendering in [`json`].

use vstd::prelude::*;

pub mod api;
pub mod json;
pub mod layer;
pub mod reporter;
pub mod types;
pub mod utils;

pub use api::{Api, ApiEndpoint};
pub use layer::NewRelicLayer;
pub use reporter::{NoopReport, Reporter};

verus! {

} // verus!
