//! Addition, subtraction and the bitwise operations.
pub mod air;
pub mod arithmetic;
pub mod columns;
pub mod execute;
pub mod laws;
pub mod meaning;
pub mod rows;
pub mod step;
