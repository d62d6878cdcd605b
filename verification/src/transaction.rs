//! Transactions: what executing one leaves behind, and how it can fail.
pub mod errors;
pub mod objects;
