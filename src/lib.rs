//! A gateway core that correlates contract-call identifiers with their
//! eventual outcomes, and maps execution results onto RPC responses.
use vstd::prelude::*;

pub mod bytes;
pub mod metrics;
pub mod registry;
pub mod service;

verus! {

/// Length in bytes of a call identifier.
pub const CALL_ID_LENGTH: usize = 32;

} // verus!
