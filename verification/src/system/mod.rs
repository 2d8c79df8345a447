//! Memory and the adapters to it.
pub mod memory;
pub mod memory_laws;
pub mod native_adapter;
pub mod online;
pub mod online_laws;
pub mod words;
