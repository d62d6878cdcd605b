//! Failures of a call before and during its execution.
use vstd::prelude::*;
use crate::primitives::{EntryPointSelector, EntryPointType};

verus! {

/// Why a call could not be started.
#[derive(Clone, Copy, Debug, PartialEq, Eq, Structural)]
pub enum PreExecutionError {
    /// The class has no entry point of the call's type with the call's selector.
    EntryPointNotFound(EntryPointSelector),
    /// The class has several entry points of the call's type with the call's
    /// selector.
    DuplicatedEntryPointSelector { selector: EntryPointSelector, typ: EntryPointType },
    /// A constructor call names another selector than the constructor's.
    InvalidConstructorEntryPointName,
}

} // verus!
