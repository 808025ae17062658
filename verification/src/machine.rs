//! The machine state and its mathematical model.

use vstd::prelude::*;
use crate::fault::Fault;

verus! {

/// Number of addressable memory cells.
pub const MEMORY_SIZE: usize = 4096;

/// Address at which a program image is loaded and at which execution starts.
pub const PROGRAM_START: u16 = 0x200;

/// Number of general-purpose registers.
pub const REGISTER_COUNT: usize = 16;

/// Index of the register that receives the carry and collision flags.
pub const FLAG_REGISTER: usize = 0xF;

/// Depth of the call stack.
pub const STACK_DEPTH: usize = 16;

/// Number of logical keys.
pub const KEY_COUNT: usize = 16;

/// Width of the framebuffer in pixels.
pub const SCREEN_WIDTH: usize = 64;

/// Height of the framebuffer in pixels.
pub const SCREEN_HEIGHT: usize = 32;

/// Number of framebuffer cells.
pub const SCREEN_CELLS: usize = 2048;

/// Number of bytes of one built-in glyph.
pub const GLYPH_HEIGHT: usize = 5;

/// Number of bytes the built-in glyphs occupy at the start of memory.
pub const GLYPH_BYTES: usize = 80;

/// The built-in sprites of the hexadecimal digits `0` to `F`, five bytes each.
pub const GLYPHS: [u8; 80] = [
    0xF0, 0x90, 0x90, 0x90, 0xF0,
    0x20, 0x60, 0x20, 0x20, 0x70,
    0xF0, 0x10, 0xF0, 0x80, 0xF0,
    0xF0, 0x10, 0xF0, 0x10, 0xF0,
    0x90, 0x90, 0xF0, 0x10, 0x10,
    0xF0, 0x80, 0xF0, 0x10, 0xF0,
    0xF0, 0x80, 0xF0, 0x90, 0xF0,
    0xF0, 0x10, 0x20, 0x40, 0x40,
    0xF0, 0x90, 0xF0, 0x90, 0xF0,
    0xF0, 0x90, 0xF0, 0x10, 0xF0,
    0xF0, 0x90, 0xF0, 0x90, 0x90,
    0xE0, 0x90, 0xE0, 0x90, 0xE0,
    0xF0, 0x80, 0x80, 0x80, 0xF0,
    0xE0, 0x90, 0x90, 0x90, 0xE0,
    0xF0, 0x80, 0xF0, 0x80, 0xF0,
    0xF0, 0x80, 0xF0, 0x80, 0x80,
];

/// The machine as a mathematical value: what contracts speak of.
#[verifier::ext_equal]
pub struct State {
    /// The memory image, one byte per address.
    pub memory: Seq<u8>,
    /// The registers `V[0]` to `V[F]`.
    pub registers: Seq<u8>,
    /// The index register `I`.
    pub index_register: nat,
    /// The address of the next instruction.
    pub program_counter: nat,
    /// The framebuffer, row by row from the top left; `true` is a lit pixel.
    pub bitmap: Seq<bool>,
    /// The delay timer.
    pub delay_timer: nat,
    /// The sound timer.
    pub sound_timer: nat,
    /// The return addresses of the call stack.
    pub stack: Seq<u16>,
    /// The number of return addresses in use.
    pub stack_pointer: nat,
    /// For each logical key, whether it is held.
    pub keys: Seq<bool>,
    /// Whether a sprite was drawn since the last frame was handed out.
    pub should_draw: bool,
}

impl State {
    /// Every component has its fixed size and every counter fits its width;
    /// the call stack is never deeper than it is long.
    pub open spec fn wf(self) -> bool {
        &&& self.memory.len() == MEMORY_SIZE
        &&& self.registers.len() == REGISTER_COUNT
        &&& self.index_register <= u16::MAX
        &&& self.program_counter <= u16::MAX
        &&& self.bitmap.len() == SCREEN_CELLS
        &&& self.delay_timer <= u8::MAX
        &&& self.sound_timer <= u8::MAX
        &&& self.stack.len() == STACK_DEPTH
        &&& self.stack_pointer <= STACK_DEPTH
        &&& self.keys.len() == KEY_COUNT
    }

    /// The state of a machine that was just switched on: the glyphs at the
    /// start of memory, everything else zero, execution about to start at
    /// the load address.
    pub open spec fn initial() -> State {
        State {
            memory: Seq::new(
                MEMORY_SIZE as nat,
                |a: int| if a < GLYPH_BYTES { GLYPHS@[a] } else { 0u8 },
            ),
            registers: Seq::new(REGISTER_COUNT as nat, |i: int| 0u8),
            index_register: 0,
            program_counter: PROGRAM_START as nat,
            bitmap: Seq::new(SCREEN_CELLS as nat, |i: int| false),
            delay_timer: 0,
            sound_timer: 0,
            stack: Seq::new(STACK_DEPTH as nat, |i: int| 0u16),
            stack_pointer: 0,
            keys: Seq::new(KEY_COUNT as nat, |i: int| false),
            should_draw: false,
        }
    }

    /// The state with `bytes` copied into memory from `offset` on.
    pub open spec fn with_bytes(self, offset: int, bytes: Seq<u8>) -> State {
        State {
            memory: Seq::new(
                self.memory.len(),
                |a: int|
                    if offset <= a < offset + bytes.len() {
                        bytes[a - offset]
                    } else {
                        self.memory[a]
                    },
            ),
            ..self
        }
    }
}

/// The machine: memory, registers, call stack, timers, framebuffer and keypad.
#[derive(Debug, PartialEq, Eq)]
pub struct Emulator {
    /// The memory image.
    pub memory: [u8; 4096],
    /// The registers `V[0]` to `V[F]`.
    pub registers: [u8; 16],
    /// The index register `I`.
    pub index_register: u16,
    /// The address of the next instruction.
    pub program_counter: u16,
    /// The framebuffer, row by row from the top left.
    pub bitmap: [bool; 2048],
    /// The delay timer.
    pub delay_timer: u8,
    /// The sound timer.
    pub sound_timer: u8,
    /// The return addresses of the call stack.
    pub stack: [u16; 16],
    /// The number of return addresses in use.
    pub stack_pointer: u16,
    /// For each logical key, whether it is held.
    pub keys: [bool; 16],
    /// Whether a sprite was drawn since the last frame was handed out.
    pub should_draw: bool,
}

impl View for Emulator {
    type V = State;

    open spec fn view(&self) -> State {
        State {
            memory: self.memory@,
            registers: self.registers@,
            index_register: self.index_register as nat,
            program_counter: self.program_counter as nat,
            bitmap: self.bitmap@,
            delay_timer: self.delay_timer as nat,
            sound_timer: self.sound_timer as nat,
            stack: self.stack@,
            stack_pointer: self.stack_pointer as nat,
            keys: self.keys@,
            should_draw: self.should_draw,
        }
    }
}

impl Clone for Emulator {
    fn clone(&self) -> (copy: Self)
        ensures
            copy@ == self@,
    {
        Emulator {
            memory: self.memory,
            registers: self.registers,
            index_register: self.index_register,
            program_counter: self.program_counter,
            bitmap: self.bitmap,
            delay_timer: self.delay_timer,
            sound_timer: self.sound_timer,
            stack: self.stack,
            stack_pointer: self.stack_pointer,
            keys: self.keys,
            should_draw: self.should_draw,
        }
    }
}

impl Emulator {
    /// The machine is well formed when its model is.
    pub open spec fn wf(&self) -> bool {
        self@.wf()
    }

    /// Switches a machine on.
    pub fn init() -> (emulator: Emulator)
        ensures
            emulator@ == State::initial(),
            emulator.wf(),
    {
        let mut memory = [0u8; 4096];
        let mut i: usize = 0;
        while i < GLYPH_BYTES
            invariant
                i <= GLYPH_BYTES,
                forall|a: int| 0 <= a < i ==> memory@[a] == GLYPHS@[a],
                forall|a: int| i <= a < MEMORY_SIZE ==> memory@[a] == 0u8,
            decreases GLYPH_BYTES - i,
        {
            memory[i] = GLYPHS[i];
            i += 1;
        }
        Emulator {
            memory,
            registers: [0u8; 16],
            index_register: 0,
            program_counter: PROGRAM_START,
            bitmap: [false; 2048],
            delay_timer: 0,
            sound_timer: 0,
            stack: [0u16; 16],
            stack_pointer: 0,
            keys: [false; 16],
            should_draw: false,
        }
    }

    /// Copies `bytes` into memory from `offset` on.
    pub fn set_bytes(&mut self, offset: usize, bytes: &[u8])
        requires
            offset + bytes.len() <= MEMORY_SIZE,
        ensures
            final(self)@ == old(self)@.with_bytes(offset as int, bytes@),
    {
        let mut i: usize = 0;
        while i < bytes.len()
            invariant
                i <= bytes.len(),
                offset + bytes.len() <= MEMORY_SIZE,
                self@ == old(self)@.with_bytes(offset as int, bytes@.take(i as int)),
            decreases bytes.len() - i,
        {
            self.memory[offset + i] = bytes[i];
            i += 1;
        }
        assert(bytes@.take(i as int) == bytes@);
    }

    /// Loads a program image at the load address. An image longer than the
    /// space from there to the end of memory is refused, and the machine is
    /// left as it was.
    pub fn load_file(&mut self, image: &[u8]) -> (loaded: Result<(), Fault>)
        ensures
            image@.len() + PROGRAM_START <= MEMORY_SIZE ==> loaded == Ok::<(), Fault>(())
                && final(self)@ == old(self)@.with_bytes(PROGRAM_START as int, image@),
            image@.len() + PROGRAM_START > MEMORY_SIZE ==> loaded == Err::<(), Fault>(
                Fault::ImageTooLarge,
            ) && final(self)@ == old(self)@,
    {
        if image.len() > MEMORY_SIZE - PROGRAM_START as usize {
            return Err(Fault::ImageTooLarge);
        }
        self.set_bytes(PROGRAM_START as usize, image);
        Ok(())
    }
}

} // verus!
