//! A virtual machine whose execution is proved in segments: the instruction chips, the execution
//! of programs over segments, and the checks of the proofs of all segments.
pub mod air;
pub mod air_laws;
pub mod air_rows;
pub mod arch;
pub mod chip_laws;
pub mod field;
pub mod instruction_laws;
pub mod instructions;
pub mod limbs;
pub mod native;
pub mod rv32im;
pub mod system;
