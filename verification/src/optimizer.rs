//! How a run of the numerical optimizer ended.

use vstd::prelude::*;

verus! {

/// The two ways a run of the optimizer can end.
#[derive(Debug, Clone, Copy, PartialEq, Eq, Structural)]
pub enum OptimizerResult {
    Failure,
    NumResult,
}

} // verus!
