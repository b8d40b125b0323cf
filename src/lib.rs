// Scan jobs: creation, background execution of probes against a target,
// incremental recording of findings, and owner-only retrieval of results.

use vstd::prelude::*;

pub mod api;
pub mod errors;
pub mod execution;
pub mod model;
pub mod orchestrator;
pub mod probe;
pub mod results;
pub mod risk;
pub mod status;
pub mod store;
pub mod text;

verus! {

} // verus!
