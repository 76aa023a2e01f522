//! Decompiler core for AMD GCN (gfx9) compute kernels: kernel-code
//! descriptor decoding, kernel-argument metadata parsing, control-flow
//! discovery, symbolic data-flow analysis over a binding DAG, and
//! lowering of the binding DAG into a typed expression tree.

pub mod assembly;
pub mod bytes;
pub mod kernel_args;
pub mod kernel_code;
pub mod control_flow;
pub mod error;
pub mod eval;
pub mod lower;
pub mod ops;
pub mod state;
pub mod text;
