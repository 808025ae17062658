//! The fatal conditions that stop a run.

use vstd::prelude::*;

verus! {

/// A fatal condition. None of them is recoverable: the host reports it and
/// ends the run.
#[derive(Clone, Copy, Debug, PartialEq, Eq, Structural)]
pub enum Fault {
    /// An access would have touched a cell outside the memory image, the
    /// framebuffer or the keypad.
    AddressOutOfRange,
    /// The fetched opcode, carried here, has no defined effect.
    UnsupportedInstruction(u16),
    /// The program image does not fit between the load address and the end
    /// of memory.
    ImageTooLarge,
}

} // verus!
