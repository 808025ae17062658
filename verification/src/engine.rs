//! The execution engine: fetch, decode, execute, advance, tick.
//!
//! One cycle fetches the two bytes at the program counter, decodes them and
//! executes the instruction. Unless the instruction set the program counter
//! itself, the counter then moves on by two, and both timers tick. A cycle
//! that ends in a fault, or that waits for a key, leaves the machine as it
//! was.
//!
//! Two things reach a cycle from outside the machine: the byte of the random
//! source and the keys that the input source reports as pressed. The model
//! takes both as arguments, so that every instruction is a function of the
//! state and of them.

use vstd::prelude::*;
use rand::Rng;
use crate::fault::Fault;
use crate::instruction::{decode, decode_spec, is_supported, lemma_decode_total, Instruction};
use crate::keypad::{first_logical_key, get_key, lemma_first_logical_key, Key};
use crate::machine::{Emulator, State, FLAG_REGISTER, GLYPH_HEIGHT, KEY_COUNT, MEMORY_SIZE};

verus! {

/// How a cycle ended.
#[derive(Clone, Copy, Debug, PartialEq, Eq, Structural)]
pub enum Progress {
    /// The instruction was executed in full.
    Completed,
    /// The instruction waits for a key and none was pressed: the host polls
    /// its input source and runs the cycle again with what it reported.
    AwaitingKey,
}

/// What a cycle yields: how it ended, and the machine after it.
#[verifier::ext_equal]
pub struct Outcome {
    pub result: Result<Progress, Fault>,
    pub state: State,
}

/// A timer after one tick: one less, but never below zero.
pub open spec fn ticked(timer: nat) -> nat {
    if timer > 0 {
        (timer - 1) as nat
    } else {
        0
    }
}

impl State {
    /// The state with both timers ticked.
    pub open spec fn tick(self) -> State {
        State {
            delay_timer: ticked(self.delay_timer),
            sound_timer: ticked(self.sound_timer),
            ..self
        }
    }

    /// The end of a cycle whose instruction left this state: the program
    /// counter moves to the next instruction, or past it if `skip` is set,
    /// and the timers tick.
    pub open spec fn complete(self, skip: bool) -> Outcome {
        Outcome {
            result: Ok(Progress::Completed),
            state: (State {
                program_counter: self.program_counter + if skip {
                    4nat
                } else {
                    2nat
                },
                ..self
            }).tick(),
        }
    }

    /// The end of a cycle that changed nothing.
    pub open spec fn stop(self, result: Result<Progress, Fault>) -> Outcome {
        Outcome { result, state: self }
    }

    /// `1nnn`: the program counter becomes `address`.
    pub open spec fn jump(self, address: u16) -> Outcome {
        Outcome {
            result: Ok(Progress::Completed),
            state: (State { program_counter: address as nat, ..self }).tick(),
        }
    }

    /// `6xnn`, `7xnn`, `8xy2`, `Cxnn`: `V[x]` becomes `value`.
    pub open spec fn set_register(self, x: u8, value: u8) -> Outcome {
        (State { registers: self.registers.update(x as int, value), ..self }).complete(false)
    }

    /// `8xy4`: `V[x]` becomes the sum of `V[x]` and `V[y]` modulo 256, and
    /// then `V[F]` becomes 1 if the sum exceeds 255 and 0 if not.
    pub open spec fn add_registers(self, x: u8, y: u8) -> Outcome {
        let sum = self.registers[x as int] + self.registers[y as int];
        (State {
            registers: self.registers.update(x as int, (sum % 0x100) as u8).update(
                FLAG_REGISTER as int,
                if sum > u8::MAX {
                    1u8
                } else {
                    0u8
                },
            ),
            ..self
        }).complete(false)
    }

    /// `Annn`, `Fx29`: `I` becomes `value`.
    pub open spec fn set_index(self, value: nat) -> Outcome {
        (State { index_register: value, ..self }).complete(false)
    }

    /// `Dxyn`: the sprite of `height` rows is drawn at `(V[x], V[y])`, or
    /// the cycle ends in a fault if the sprite cannot be drawn there.
    pub open spec fn draw_sprite(self, x: u8, y: u8, height: u8) -> Outcome {
        let left = self.registers[x as int] as int;
        let top = self.registers[y as int] as int;
        if self.sprite_fits(left, top, height as int) {
            self.draw(left, top, height as int).complete(false)
        } else {
            self.stop(Err(Fault::AddressOutOfRange))
        }
    }

    /// `Ex9E`, `ExA1`: the next instruction is skipped if whether key `V[x]`
    /// is held equals `held`; the cycle ends in a fault if `V[x]` is no key.
    pub open spec fn skip_if_key(self, x: u8, held: bool) -> Outcome {
        let key = self.registers[x as int];
        if key < KEY_COUNT {
            self.complete(self.keys[key as int] == held)
        } else {
            self.stop(Err(Fault::AddressOutOfRange))
        }
    }

    /// `Fx0A`: `V[x]` becomes the first logical key among the pressed keys;
    /// while there is none the cycle waits and nothing changes.
    pub open spec fn wait_key(self, x: u8, pressed: Seq<Key>) -> Outcome {
        match first_logical_key(pressed) {
            Some(key) => self.set_register(x, key),
            None => self.stop(Ok(Progress::AwaitingKey)),
        }
    }

    /// `Fx18`: the sound timer becomes `V[x]`.
    pub open spec fn set_sound_timer(self, x: u8) -> Outcome {
        (State { sound_timer: self.registers[x as int] as nat, ..self }).complete(false)
    }

    /// `Fx33`: the hundreds, tens and ones of `V[x]` are stored at `I`,
    /// `I + 1` and `I + 2`, or the cycle ends in a fault if these do not all
    /// lie in memory.
    pub open spec fn store_bcd(self, x: u8) -> Outcome {
        let i = self.index_register as int;
        let value = self.registers[x as int] as int;
        if i + 2 < MEMORY_SIZE {
            (State {
                memory: self.memory.update(i, (value / 100) as u8).update(
                    i + 1,
                    (value / 10 % 10) as u8,
                ).update(i + 2, (value % 10) as u8),
                ..self
            }).complete(false)
        } else {
            self.stop(Err(Fault::AddressOutOfRange))
        }
    }

    /// `Fx65`: `V[0]` to `V[x]` are loaded from memory at `I` on, or the
    /// cycle ends in a fault if these cells do not all lie in memory.
    pub open spec fn load_registers(self, x: u8) -> Outcome {
        let i = self.index_register as int;
        if i + x < MEMORY_SIZE {
            (State {
                registers: Seq::new(
                    self.registers.len(),
                    |r: int|
                        if r <= x {
                            self.memory[i + r]
                        } else {
                            self.registers[r]
                        },
                ),
                ..self
            }).complete(false)
        } else {
            self.stop(Err(Fault::AddressOutOfRange))
        }
    }

    /// The effect of one instruction, given the byte that the random source
    /// produced and the keys that the input source reported as pressed.
    pub open spec fn execute(
        self,
        instruction: Instruction,
        random: u8,
        pressed: Seq<Key>,
    ) -> Outcome {
        let v = self.registers;
        match instruction {
            Instruction::Jump { address } => self.jump(address),
            Instruction::SkipIfEqual { x, value } => self.complete(v[x as int] == value),
            Instruction::SkipIfNotEqual { x, value } => self.complete(v[x as int] != value),
            Instruction::Load { x, value } => self.set_register(x, value),
            Instruction::Add { x, value } => self.set_register(
                x,
                ((v[x as int] + value) % 0x100) as u8,
            ),
            Instruction::And { x, y } => self.set_register(x, v[x as int] & v[y as int]),
            Instruction::AddRegisters { x, y } => self.add_registers(x, y),
            Instruction::LoadIndex { address } => self.set_index(address as nat),
            Instruction::Random { x, mask } => self.set_register(x, mask & random),
            Instruction::Draw { x, y, height } => self.draw_sprite(x, y, height),
            Instruction::SkipIfKey { x } => self.skip_if_key(x, true),
            Instruction::SkipIfNotKey { x } => self.skip_if_key(x, false),
            Instruction::WaitKey { x } => self.wait_key(x, pressed),
            Instruction::SetSoundTimer { x } => self.set_sound_timer(x),
            Instruction::LoadGlyph { x } => self.set_index((v[x as int] * GLYPH_HEIGHT) as nat),
            Instruction::StoreBcd { x } => self.store_bcd(x),
            Instruction::LoadRegisters { x } => self.load_registers(x),
        }
    }

    /// The opcode at the program counter, high byte first; a fault if the
    /// two bytes do not both lie in memory.
    pub open spec fn fetch(self) -> Result<u16, Fault> {
        let at = self.program_counter as int;
        if at + 1 < MEMORY_SIZE {
            Ok((self.memory[at] as int * 0x100 + self.memory[at + 1] as int) as u16)
        } else {
            Err(Fault::AddressOutOfRange)
        }
    }

    /// The instruction at the program counter, or the fault that fetching
    /// or decoding it ends in.
    pub open spec fn instruction(self) -> Result<Instruction, Fault> {
        match self.fetch() {
            Ok(opcode) => decode_spec(opcode),
            Err(fault) => Err(fault),
        }
    }

    /// Whether the instruction at the program counter asks for a random byte.
    pub open spec fn wants_random(self) -> bool {
        self.instruction() is Ok && self.instruction()->Ok_0 is Random
    }

    /// Whether the instruction at the program counter waits for a key.
    pub open spec fn wants_key(self) -> bool {
        self.instruction() is Ok && self.instruction()->Ok_0 is WaitKey
    }

    /// One cycle: fetch, decode, execute. A fault of any stage ends the
    /// cycle and leaves the state as it was.
    pub open spec fn cycle(self, random: u8, pressed: Seq<Key>) -> Outcome {
        match self.instruction() {
            Ok(instruction) => self.execute(instruction, random, pressed),
            Err(fault) => self.stop(Err(fault)),
        }
    }
}

/// Draws a byte from the thread-local generator of the `rand` crate, by
/// `Rng::gen` on `thread_rng()`. Nothing is claimed of the byte: any value
/// may come back, and two calls may differ. The generator is seeded from the
/// operating system on a thread's first call and panics if that fails.
#[verifier::external_body]
fn random_byte() -> (byte: u8) {
    rand::thread_rng().gen()
}

impl Emulator {
    /// Reads the opcode at the program counter.
    pub fn fetch(&self) -> (opcode: Result<u16, Fault>)
        ensures
            opcode == self@.fetch(),
    {
        if self.program_counter as usize + 1 >= MEMORY_SIZE {
            return Err(Fault::AddressOutOfRange);
        }
        let high: u16 = self.memory[self.program_counter as usize] as u16;
        let low: u16 = self.memory[self.program_counter as usize + 1] as u16;
        assert(high << 8 | low == high * 0x100 + low) by (bit_vector)
            requires
                high < 0x100,
                low < 0x100,
        ;
        Ok(high << 8 | low)
    }

    /// Lets both timers tick.
    pub fn tick_timers(&mut self)
        ensures
            final(self)@ == old(self)@.tick(),
    {
        if self.delay_timer > 0 {
            self.delay_timer -= 1;
        }
        if self.sound_timer > 0 {
            self.sound_timer -= 1;
        }
    }

    /// Ends a cycle that completes: moves the program counter on and lets the
    /// timers tick.
    fn complete(&mut self, skip: bool) -> (result: Result<Progress, Fault>)
        requires
            old(self)@.program_counter + 1 < MEMORY_SIZE,
        ensures
            (Outcome { result, state: final(self)@ }) == old(self)@.complete(skip),
    {
        self.program_counter += if skip {
            4
        } else {
            2
        };
        self.tick_timers();
        Ok(Progress::Completed)
    }

    /// `1nnn`.
    fn jump(&mut self, address: u16) -> (result: Result<Progress, Fault>)
        ensures
            (Outcome { result, state: final(self)@ }) == old(self)@.jump(address),
    {
        self.program_counter = address;
        self.tick_timers();
        Ok(Progress::Completed)
    }

    /// `6xnn`, `7xnn`, `8xy2`, `Cxnn`, once the value is known.
    fn set_register(&mut self, x: u8, value: u8) -> (result: Result<Progress, Fault>)
        requires
            x < 16,
            old(self)@.program_counter + 1 < MEMORY_SIZE,
        ensures
            (Outcome { result, state: final(self)@ }) == old(self)@.set_register(x, value),
    {
        self.registers[x as usize] = value;
        self.complete(false)
    }

    /// `8xy4`.
    fn add_registers(&mut self, x: u8, y: u8) -> (result: Result<Progress, Fault>)
        requires
            x < 16,
            y < 16,
            old(self)@.program_counter + 1 < MEMORY_SIZE,
        ensures
            (Outcome { result, state: final(self)@ }) == old(self)@.add_registers(x, y),
    {
        let left = self.registers[x as usize];
        let right = self.registers[y as usize];
        self.registers[x as usize] = left.wrapping_add(right);
        self.registers[FLAG_REGISTER] = if left.checked_add(right).is_none() {
            1
        } else {
            0
        };
        self.complete(false)
    }

    /// `Annn`, `Fx29`, once the value is known.
    fn set_index(&mut self, value: u16) -> (result: Result<Progress, Fault>)
        requires
            old(self)@.program_counter + 1 < MEMORY_SIZE,
        ensures
            (Outcome { result, state: final(self)@ }) == old(self)@.set_index(value as nat),
    {
        self.index_register = value;
        self.complete(false)
    }

    /// `Dxyn`.
    fn draw_sprite(&mut self, x: u8, y: u8, height: u8) -> (result: Result<Progress, Fault>)
        requires
            x < 16,
            y < 16,
            old(self)@.program_counter + 1 < MEMORY_SIZE,
        ensures
            (Outcome { result, state: final(self)@ }) == old(self)@.draw_sprite(x, y, height),
    {
        let left = self.registers[x as usize] as usize;
        let top = self.registers[y as usize] as usize;
        if !self.sprite_fits(left, top, height as usize) {
            return Err(Fault::AddressOutOfRange);
        }
        self.draw(left, top, height as usize);
        self.complete(false)
    }

    /// `Ex9E` with `held` set, `ExA1` with `held` clear.
    fn skip_if_key(&mut self, x: u8, held: bool) -> (result: Result<Progress, Fault>)
        requires
            x < 16,
            old(self)@.program_counter + 1 < MEMORY_SIZE,
        ensures
            (Outcome { result, state: final(self)@ }) == old(self)@.skip_if_key(x, held),
    {
        let key = self.registers[x as usize] as usize;
        if key >= KEY_COUNT {
            return Err(Fault::AddressOutOfRange);
        }
        let skip = self.keys[key] == held;
        self.complete(skip)
    }

    /// `Fx0A`.
    fn wait_key(&mut self, x: u8, pressed: &[Key]) -> (result: Result<Progress, Fault>)
        requires
            x < 16,
            old(self)@.program_counter + 1 < MEMORY_SIZE,
        ensures
            (Outcome { result, state: final(self)@ }) == old(self)@.wait_key(x, pressed@),
    {
        match get_key(pressed) {
            Some(key) => self.set_register(x, key),
            None => Ok(Progress::AwaitingKey),
        }
    }

    /// `Fx18`.
    fn set_sound_timer(&mut self, x: u8) -> (result: Result<Progress, Fault>)
        requires
            x < 16,
            old(self)@.program_counter + 1 < MEMORY_SIZE,
        ensures
            (Outcome { result, state: final(self)@ }) == old(self)@.set_sound_timer(x),
    {
        self.sound_timer = self.registers[x as usize];
        self.complete(false)
    }

    /// `Fx33`.
    fn store_bcd(&mut self, x: u8) -> (result: Result<Progress, Fault>)
        requires
            x < 16,
            old(self)@.program_counter + 1 < MEMORY_SIZE,
        ensures
            (Outcome { result, state: final(self)@ }) == old(self)@.store_bcd(x),
    {
        let at = self.index_register as usize;
        if at + 2 >= MEMORY_SIZE {
            return Err(Fault::AddressOutOfRange);
        }
        let value = self.registers[x as usize];
        self.memory[at] = value / 100;
        self.memory[at + 1] = (value % 100) / 10;
        self.memory[at + 2] = value % 10;
        self.complete(false)
    }

    /// `Fx65`.
    fn load_registers(&mut self, x: u8) -> (result: Result<Progress, Fault>)
        requires
            x < 16,
            old(self)@.program_counter + 1 < MEMORY_SIZE,
        ensures
            (Outcome { result, state: final(self)@ }) == old(self)@.load_registers(x),
    {
        let from = self.index_register as usize;
        let last = x as usize;
        if from + last >= MEMORY_SIZE {
            return Err(Fault::AddressOutOfRange);
        }
        let mut r: usize = 0;
        while r <= last
            invariant
                r <= last + 1,
                last < 16,
                from + last < MEMORY_SIZE,
                from == old(self)@.index_register,
                self@ == (State { registers: self@.registers, ..old(self)@ }),
                forall|k: int|
                    0 <= k < 16 ==> self@.registers[k] == if k < r {
                        old(self)@.memory[from + k]
                    } else {
                        old(self)@.registers[k]
                    },
            decreases last + 1 - r,
        {
            self.registers[r] = self.memory[from + r];
            r += 1;
        }
        self.complete(false)
    }

    /// Executes `instruction` as the one that was fetched at the program
    /// counter, with `random` as the byte of the random source and `pressed`
    /// as the keys that the input source reported as pressed. The program
    /// counter has to be an address at which an instruction can be fetched.
    pub fn execute(&mut self, instruction: Instruction, random: u8, pressed: &[Key]) -> (result:
        Result<Progress, Fault>)
        requires
            instruction.wf(),
            old(self)@.program_counter + 1 < MEMORY_SIZE,
        ensures
            (Outcome { result, state: final(self)@ }) == old(self)@.execute(
                instruction,
                random,
                pressed@,
            ),
    {
        match instruction {
            Instruction::Jump { address } => self.jump(address),
            Instruction::SkipIfEqual { x, value } => {
                let skip = self.registers[x as usize] == value;
                self.complete(skip)
            },
            Instruction::SkipIfNotEqual { x, value } => {
                let skip = self.registers[x as usize] != value;
                self.complete(skip)
            },
            Instruction::Load { x, value } => self.set_register(x, value),
            Instruction::Add { x, value } => {
                let sum = self.registers[x as usize].wrapping_add(value);
                self.set_register(x, sum)
            },
            Instruction::And { x, y } => {
                let both = self.registers[x as usize] & self.registers[y as usize];
                self.set_register(x, both)
            },
            Instruction::AddRegisters { x, y } => self.add_registers(x, y),
            Instruction::LoadIndex { address } => self.set_index(address),
            Instruction::Random { x, mask } => self.set_register(x, mask & random),
            Instruction::Draw { x, y, height } => self.draw_sprite(x, y, height),
            Instruction::SkipIfKey { x } => self.skip_if_key(x, true),
            Instruction::SkipIfNotKey { x } => self.skip_if_key(x, false),
            Instruction::WaitKey { x } => self.wait_key(x, pressed),
            Instruction::SetSoundTimer { x } => self.set_sound_timer(x),
            Instruction::LoadGlyph { x } => {
                let glyph = self.registers[x as usize] as u16 * GLYPH_HEIGHT as u16;
                self.set_index(glyph)
            },
            Instruction::StoreBcd { x } => self.store_bcd(x),
            Instruction::LoadRegisters { x } => self.load_registers(x),
        }
    }

    /// Runs one cycle. `pressed` holds the keys that the input source
    /// reported as pressed when the host last polled it for a key wait, and
    /// is empty otherwise. The random source is consulted only for the
    /// instruction that asks for a random byte; whatever byte it gives, the
    /// cycle is the model's cycle on that byte.
    pub fn emulate_cycle(&mut self, pressed: &[Key]) -> (result: Result<Progress, Fault>)
        ensures
            exists|random: u8| #[trigger]
                old(self)@.cycle(random, pressed@) == (Outcome { result, state: final(self)@ }),
            !old(self)@.wants_random() ==> forall|random: u8| #[trigger]
                old(self)@.cycle(random, pressed@) == (Outcome { result, state: final(self)@ }),
    {
        let opcode = match self.fetch() {
            Ok(opcode) => opcode,
            Err(fault) => {
                assert(old(self)@.cycle(0, pressed@) == (Outcome {
                    result: Err(fault),
                    state: self@,
                }));
                return Err(fault);
            },
        };
        let instruction = match decode(opcode) {
            Ok(instruction) => instruction,
            Err(fault) => {
                assert(old(self)@.cycle(0, pressed@) == (Outcome {
                    result: Err(fault),
                    state: self@,
                }));
                return Err(fault);
            },
        };
        let random: u8 = match instruction {
            Instruction::Random { .. } => random_byte(),
            _ => 0,
        };
        let result = self.execute(instruction, random, pressed);
        assert(old(self)@.cycle(random, pressed@) == (Outcome { result, state: self@ }));
        result
    }
}

/// A cycle keeps a well-formed machine well formed: no component changes
/// its size, no counter leaves its width, and the call stack stays within
/// its depth.
pub proof fn lemma_cycle_preserves_wf(s: State, random: u8, pressed: Seq<Key>)
    requires
        s.wf(),
    ensures
        s.cycle(random, pressed).state.wf(),
{
    if s.fetch() is Ok {
        lemma_decode_total(s.fetch()->Ok_0);
        lemma_first_logical_key(pressed);
    }
}

/// What a cycle leaves alone. No instruction touches the keypad or the call
/// stack. Only a draw touches the framebuffer and asks for a redraw, and it
/// keeps the index register. Only the decimal store writes to memory, and
/// only to the three cells from `I` on.
pub proof fn lemma_cycle_footprint(s: State, random: u8, pressed: Seq<Key>)
    requires
        s.wf(),
    ensures
        ({
            let after = s.cycle(random, pressed).state;
            let draws = s.instruction() is Ok && s.instruction()->Ok_0 is Draw;
            let stores = s.instruction() is Ok && s.instruction()->Ok_0 is StoreBcd;
            &&& after.keys == s.keys
            &&& after.stack == s.stack
            &&& after.stack_pointer == s.stack_pointer
            &&& !draws ==> after.bitmap == s.bitmap && after.should_draw == s.should_draw
            &&& draws ==> after.index_register == s.index_register
            &&& !stores ==> after.memory == s.memory
            &&& forall|a: int|
                0 <= a < MEMORY_SIZE && !(s.index_register <= a < s.index_register + 3)
                    ==> after.memory[a] == s.memory[a]
        }),
{
}

/// The random byte matters only to the instruction that asks for one, and
/// the pressed keys only to the key wait.
pub proof fn lemma_cycle_inputs(
    s: State,
    random: u8,
    pressed: Seq<Key>,
    other_random: u8,
    other_pressed: Seq<Key>,
)
    requires
        s.wants_random() ==> random == other_random,
        s.wants_key() ==> pressed == other_pressed,
    ensures
        s.cycle(random, pressed) == s.cycle(other_random, other_pressed),
{
}

/// `8xy4` leaves in the flag register 1 if the sum of the two registers
/// exceeds 255 and 0 otherwise, and in `V[x]`, unless that is the flag
/// register, the sum modulo 256.
pub proof fn lemma_add_registers(s: State, x: u8, y: u8, random: u8, pressed: Seq<Key>)
    requires
        s.wf(),
        x < 16,
        y < 16,
    ensures
        ({
            let sum = s.registers[x as int] + s.registers[y as int];
            let after = s.execute(Instruction::AddRegisters { x, y }, random, pressed);
            &&& after.result == Ok::<Progress, Fault>(Progress::Completed)
            &&& after.state.registers[FLAG_REGISTER as int] == 1 <==> sum > 255
            &&& after.state.registers[FLAG_REGISTER as int] == 0 <==> sum <= 255
            &&& x != FLAG_REGISTER ==> after.state.registers[x as int] == sum % 256
        }),
{
}

/// `7xnn` leaves in `V[x]` the sum of its old value and `nn` modulo 256 and
/// touches no other register, the flag register included.
pub proof fn lemma_add_immediate(s: State, x: u8, nn: u8, random: u8, pressed: Seq<Key>)
    requires
        s.wf(),
        x < 16,
    ensures
        ({
            let after = s.execute(Instruction::Add { x, value: nn }, random, pressed);
            &&& after.result == Ok::<Progress, Fault>(Progress::Completed)
            &&& after.state.registers[x as int] == (s.registers[x as int] + nn) % 256
            &&& forall|r: int|
                0 <= r < 16 && r != x ==> after.state.registers[r] == s.registers[r]
        }),
{
}

/// `3xnn` moves the program counter on by 4 if `V[x] == nn` and by 2
/// otherwise.
pub proof fn lemma_skip_if_equal(s: State, x: u8, nn: u8, random: u8, pressed: Seq<Key>)
    requires
        s.wf(),
        x < 16,
    ensures
        ({
            let after = s.execute(Instruction::SkipIfEqual { x, value: nn }, random, pressed);
            &&& after.result == Ok::<Progress, Fault>(Progress::Completed)
            &&& s.registers[x as int] == nn ==> after.state.program_counter == s.program_counter
                + 4
            &&& s.registers[x as int] != nn ==> after.state.program_counter == s.program_counter
                + 2
        }),
{
}

/// A cycle that fetches an opcode outside the instruction table ends in the
/// fault that carries the opcode, and the machine stays as it was: the
/// program counter does not move and the timers do not tick.
pub proof fn lemma_unsupported_opcode(s: State, opcode: u16, random: u8, pressed: Seq<Key>)
    requires
        s.fetch() == Ok::<u16, Fault>(opcode),
        !is_supported(opcode),
    ensures
        s.cycle(random, pressed) == (Outcome {
            result: Err(Fault::UnsupportedInstruction(opcode)),
            state: s,
        }),
{
    lemma_decode_total(opcode);
}

/// The timers tick on the cycles that complete and on no others. A cycle
/// that ends in a fault or that goes on waiting for a key leaves the whole
/// machine as it was; a key wait goes on exactly as long as no logical key is
/// among the pressed keys. On a cycle that completes, the delay timer has
/// ticked once, and so has the sound timer, from the value that the
/// instruction gave it if it set the timer.
pub proof fn lemma_timers_tick_on_completion(s: State, random: u8, pressed: Seq<Key>)
    requires
        s.wf(),
    ensures
        ({
            let after = s.cycle(random, pressed);
            &&& after.result != Ok::<Progress, Fault>(Progress::Completed) ==> after.state == s
            &&& after.result == Ok::<Progress, Fault>(Progress::AwaitingKey) <==> s.wants_key()
                && first_logical_key(pressed) is None
            &&& after.result == Ok::<Progress, Fault>(Progress::Completed) ==> {
                &&& after.state.delay_timer == ticked(s.delay_timer)
                &&& after.state.sound_timer == ticked(
                    match s.instruction() {
                        Ok(Instruction::SetSoundTimer { x }) => s.registers[x as int] as nat,
                        _ => s.sound_timer,
                    },
                )
            }
        }),
{
}

} // verus!
