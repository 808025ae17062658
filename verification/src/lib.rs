//! A verified interpreter core for the CHIP-8 virtual machine.
//!
//! The crate holds the machine state, the instruction decoder, the
//! execution engine with its sprite blitter and timers, and the keypad
//! mapping. Windowing, file access and the run loop are left to the host.

pub mod fault;
pub mod instruction;
pub mod machine;
pub mod keypad;
pub mod display;
pub mod engine;
