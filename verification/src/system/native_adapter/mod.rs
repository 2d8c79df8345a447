//! Access to the native address space.
pub mod util;
pub mod util_laws;
