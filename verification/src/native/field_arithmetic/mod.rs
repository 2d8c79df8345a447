//! Addition, subtraction, multiplication and division of field elements.
pub mod chip;
pub mod execute;
pub mod laws;
pub mod meaning;
pub mod rows;
