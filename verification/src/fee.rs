//! From resource usage to a fee.
pub mod fee_utils;
pub mod fixed_point;
