//! The machine: execution modes, segments and the virtual machine.
pub mod error;
pub mod execution_mode;
pub mod segment;
pub mod segment_laws;
pub mod segment_executor;
pub mod segment_executor_laws;
pub mod vm;
