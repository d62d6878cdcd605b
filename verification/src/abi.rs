//! Names and sizes fixed by the protocol, and selectors.
pub mod abi_utils;
pub mod constants;
