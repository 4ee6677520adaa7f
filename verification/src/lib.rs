//! An interpreter core for the CHIP-8 virtual machine: instruction decoding,
//! the execution engine, the display buffer and the 60 Hz frame scheduler.
//!
//! Every function is verified against a contract stated over the
//! mathematical model of the machine, [`machine::State`].

pub mod bits;
pub mod display;
pub mod engine;
pub mod fault;
pub mod font;
pub mod instruction;
pub mod laws;
pub mod machine;
pub mod scheduler;
