//! Contract classes, calls and what they leave behind.
pub mod casm;
pub mod contract_class;
pub mod entry_point;
pub mod errors;
