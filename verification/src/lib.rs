//! Transaction execution and fee accounting core of a rollup execution layer:
//! contract classes and entry point resolution, the tree of calls that one
//! invocation leaves behind, and the conversion of resource usage into a fee.
pub mod abi;
pub mod assoc;
pub mod block_context;
pub mod cached;
pub mod primitives;
pub mod scale_codecs;
pub mod sets;
pub mod transaction;
pub mod execution;
pub mod fee;
