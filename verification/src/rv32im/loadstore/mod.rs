//! Loads and stores of words, halfwords and bytes.
pub mod air;
pub mod columns;
pub mod execute;
pub mod laws;
pub mod meaning;
pub mod rows;
pub mod step;
pub mod write_data;
