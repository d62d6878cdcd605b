//! Failures of a transaction's execution and accounting.
use vstd::prelude::*;

verus! {

/// Why a transaction could not be executed or charged.
#[derive(Clone, Copy, Debug, PartialEq, Eq, Structural)]
pub enum TransactionExecutionError {
    /// A resource was used for which the block names no cost.
    CairoResourcesNotContainedInFeeCosts,
    /// A number does not fit the fixed point arithmetic of fees.
    FixedPointConversion,
}

} // verus!
