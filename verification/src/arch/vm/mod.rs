//! The virtual machine.
pub mod complex;
pub mod complex_laws;
pub mod config;
pub mod constraint;
pub mod control;
pub mod exe;
pub mod exe_laws;
pub mod executor;
pub mod executor_laws;
pub mod exit;
pub mod generate;
pub mod generate_laws;
pub mod interpreter;
pub mod machine;
pub mod machine_laws;
pub mod report;
pub mod report_laws;
pub mod rng;
pub mod run;
pub mod run_laws;
pub mod run_meaning;
pub mod single;
pub mod single_laws;
pub mod state;
pub mod state_laws;
pub mod streams;
pub mod verify;
pub mod verify_entries;
pub mod verify_laws;
pub mod verify_meaning;
