//! Signed and unsigned comparison.
pub mod air;
pub mod columns;
pub mod comparison;
pub mod execute;
pub mod laws;
pub mod meaning;
pub mod rows;
pub mod step;
