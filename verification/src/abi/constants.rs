//! Names and sizes fixed by the protocol.
use vstd::prelude::*;

verus! {

/// Number of field elements that one entry point of a legacy class adds to the
/// data hashed for its class hash.
pub const CAIRO0_ENTRY_POINT_STRUCT_SIZE: usize = 2;

/// Steps that one Pedersen hash takes.
pub const N_STEPS_PER_PEDERSEN: usize = 8;

/// The resource key under which direct L1 gas usage is recorded.
pub const GAS_USAGE: &'static str = "l1_gas_usage";

/// The resource key of the step count.
pub const N_STEPS_RESOURCE: &'static str = "n_steps";

/// The name of a class's constructor.
pub const CONSTRUCTOR_ENTRY_POINT_NAME: &'static str = "constructor";

} // verus!
