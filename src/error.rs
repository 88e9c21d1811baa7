//! Failures of the engine's operations.
use vstd::prelude::*;

verus! {

/// Why an operation of the engine failed.
#[derive(Debug, PartialEq, Eq, Structural, Clone, Copy)]
pub enum EngineError {
    /// The room server answered a request with `success: false`.
    UpstreamRejected,
    /// No engine is running.
    NotInitialized,
}

} // verus!
