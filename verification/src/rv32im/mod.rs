//! Instructions of the 32-bit RISC-V instruction set.
pub mod base_alu;
pub mod less_than;
pub mod loadstore;
