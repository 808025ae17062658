//! Opcode layout and the decoder.
//!
//! An opcode is a 16-bit word of four nibbles. The highest nibble selects the
//! instruction family; the others hold register indices `x` and `y`, a 4-bit
//! immediate `n`, an 8-bit immediate `nn` or a 12-bit address `nnn`.

use vstd::prelude::*;
use crate::fault::Fault;

verus! {

/// The instructions the engine executes.
#[derive(Clone, Copy, Debug, PartialEq, Eq, Structural)]
pub enum Instruction {
    /// `1nnn`: continue at `address`.
    Jump { address: u16 },
    /// `3xnn`: skip the next instruction if `V[x] == value`.
    SkipIfEqual { x: u8, value: u8 },
    /// `4xnn`: skip the next instruction if `V[x] != value`.
    SkipIfNotEqual { x: u8, value: u8 },
    /// `6xnn`: `V[x] = value`.
    Load { x: u8, value: u8 },
    /// `7xnn`: `V[x] = V[x] + value`, wrapping, no flag.
    Add { x: u8, value: u8 },
    /// `8xy2`: `V[x] = V[x] & V[y]`.
    And { x: u8, y: u8 },
    /// `8xy4`: `V[x] = V[x] + V[y]`, wrapping, carry in `V[F]`.
    AddRegisters { x: u8, y: u8 },
    /// `Annn`: `I = address`.
    LoadIndex { address: u16 },
    /// `Cxnn`: `V[x] = mask & random byte`.
    Random { x: u8, mask: u8 },
    /// `Dxyn`: draw the sprite of `height` rows at `(V[x], V[y])`.
    Draw { x: u8, y: u8, height: u8 },
    /// `Ex9E`: skip the next instruction if key `V[x]` is held.
    SkipIfKey { x: u8 },
    /// `ExA1`: skip the next instruction if key `V[x]` is not held.
    SkipIfNotKey { x: u8 },
    /// `Fx0A`: wait for a key press and store the key in `V[x]`.
    WaitKey { x: u8 },
    /// `Fx18`: `sound timer = V[x]`.
    SetSoundTimer { x: u8 },
    /// `Fx29`: `I` = address of the glyph for digit `V[x]`.
    LoadGlyph { x: u8 },
    /// `Fx33`: store the decimal digits of `V[x]` at `I`, `I+1`, `I+2`.
    StoreBcd { x: u8 },
    /// `Fx65`: load `V[0]..=V[x]` from memory at `I`.
    LoadRegisters { x: u8 },
}

/// The instruction family: the highest nibble.
pub open spec fn family(opcode: u16) -> int {
    opcode as int / 0x1000
}

/// The register index `x`: bits 8 to 11.
pub open spec fn field_x(opcode: u16) -> int {
    (opcode as int / 0x100) % 0x10
}

/// The register index `y`: bits 4 to 7.
pub open spec fn field_y(opcode: u16) -> int {
    (opcode as int / 0x10) % 0x10
}

/// The 4-bit immediate `n`.
pub open spec fn field_n(opcode: u16) -> int {
    opcode as int % 0x10
}

/// The 8-bit immediate `nn`: the low byte.
pub open spec fn field_nn(opcode: u16) -> int {
    opcode as int % 0x100
}

/// The 12-bit address `nnn`.
pub open spec fn field_nnn(opcode: u16) -> int {
    opcode as int % 0x1000
}

impl Instruction {
    /// Every field lies within the width the opcode layout gives it.
    pub open spec fn wf(self) -> bool {
        match self {
            Instruction::Jump { address } => address < 0x1000,
            Instruction::SkipIfEqual { x, .. } => x < 16,
            Instruction::SkipIfNotEqual { x, .. } => x < 16,
            Instruction::Load { x, .. } => x < 16,
            Instruction::Add { x, .. } => x < 16,
            Instruction::And { x, y } => x < 16 && y < 16,
            Instruction::AddRegisters { x, y } => x < 16 && y < 16,
            Instruction::LoadIndex { address } => address < 0x1000,
            Instruction::Random { x, .. } => x < 16,
            Instruction::Draw { x, y, height } => x < 16 && y < 16 && height < 16,
            Instruction::SkipIfKey { x } => x < 16,
            Instruction::SkipIfNotKey { x } => x < 16,
            Instruction::WaitKey { x } => x < 16,
            Instruction::SetSoundTimer { x } => x < 16,
            Instruction::LoadGlyph { x } => x < 16,
            Instruction::StoreBcd { x } => x < 16,
            Instruction::LoadRegisters { x } => x < 16,
        }
    }
}

/// Whether an opcode is one of the instruction table.
pub open spec fn is_supported(opcode: u16) -> bool {
    let group = family(opcode);
    let n = field_n(opcode);
    let nn = field_nn(opcode);
    ||| group == 0x1
    ||| group == 0x3
    ||| group == 0x4
    ||| group == 0x6
    ||| group == 0x7
    ||| group == 0x8 && (n == 0x2 || n == 0x4)
    ||| group == 0xA
    ||| group == 0xC
    ||| group == 0xD
    ||| group == 0xE && (nn == 0x9E || nn == 0xA1)
    ||| group == 0xF && (nn == 0x0A || nn == 0x18 || nn == 0x29 || nn == 0x33 || nn == 0x65)
}

/// What an opcode means: the instruction it encodes, or the fault that
/// names it when it encodes none.
pub open spec fn decode_spec(opcode: u16) -> Result<Instruction, Fault> {
    let x = field_x(opcode) as u8;
    let y = field_y(opcode) as u8;
    let n = field_n(opcode) as u8;
    let nn = field_nn(opcode) as u8;
    let nnn = field_nnn(opcode) as u16;
    let unsupported = Err(Fault::UnsupportedInstruction(opcode));
    if family(opcode) == 0x1 {
        Ok(Instruction::Jump { address: nnn })
    } else if family(opcode) == 0x3 {
        Ok(Instruction::SkipIfEqual { x, value: nn })
    } else if family(opcode) == 0x4 {
        Ok(Instruction::SkipIfNotEqual { x, value: nn })
    } else if family(opcode) == 0x6 {
        Ok(Instruction::Load { x, value: nn })
    } else if family(opcode) == 0x7 {
        Ok(Instruction::Add { x, value: nn })
    } else if family(opcode) == 0x8 {
        if n == 0x2 {
            Ok(Instruction::And { x, y })
        } else if n == 0x4 {
            Ok(Instruction::AddRegisters { x, y })
        } else {
            unsupported
        }
    } else if family(opcode) == 0xA {
        Ok(Instruction::LoadIndex { address: nnn })
    } else if family(opcode) == 0xC {
        Ok(Instruction::Random { x, mask: nn })
    } else if family(opcode) == 0xD {
        Ok(Instruction::Draw { x, y, height: n })
    } else if family(opcode) == 0xE {
        if nn == 0x9E {
            Ok(Instruction::SkipIfKey { x })
        } else if nn == 0xA1 {
            Ok(Instruction::SkipIfNotKey { x })
        } else {
            unsupported
        }
    } else if family(opcode) == 0xF {
        if nn == 0x0A {
            Ok(Instruction::WaitKey { x })
        } else if nn == 0x18 {
            Ok(Instruction::SetSoundTimer { x })
        } else if nn == 0x29 {
            Ok(Instruction::LoadGlyph { x })
        } else if nn == 0x33 {
            Ok(Instruction::StoreBcd { x })
        } else if nn == 0x65 {
            Ok(Instruction::LoadRegisters { x })
        } else {
            unsupported
        }
    } else {
        unsupported
    }
}

/// An opcode decodes to an instruction exactly if it is one of the
/// instruction table, and the instruction is then well formed; any other
/// opcode yields the fault that carries it.
pub proof fn lemma_decode_total(opcode: u16)
    ensures
        decode_spec(opcode) is Ok <==> is_supported(opcode),
        decode_spec(opcode) matches Ok(instruction) ==> instruction.wf(),
        !is_supported(opcode) ==> decode_spec(opcode) == Err::<Instruction, Fault>(
            Fault::UnsupportedInstruction(opcode),
        ),
{
}

/// Extracts the register index `x` of an opcode.
pub fn register_x(opcode: u16) -> (x: u8)
    ensures
        x == field_x(opcode),
        x < 16,
{
    let x: u16 = (opcode & 0x0F00) >> 8;
    assert(x == (opcode / 0x100) % 0x10) by (bit_vector)
        requires
            x == (opcode & 0x0F00) >> 8,
    ;
    x as u8
}

/// Extracts the register index `y` of an opcode.
pub fn register_y(opcode: u16) -> (y: u8)
    ensures
        y == field_y(opcode),
        y < 16,
{
    let y: u16 = (opcode & 0x00F0) >> 4;
    assert(y == (opcode / 0x10) % 0x10) by (bit_vector)
        requires
            y == (opcode & 0x00F0) >> 4,
    ;
    y as u8
}

/// Decodes an opcode. Succeeds exactly on the opcodes of the instruction
/// table; every other opcode is reported as unsupported, by its value.
pub fn decode(opcode: u16) -> (decoded: Result<Instruction, Fault>)
    ensures
        decoded == decode_spec(opcode),
        decoded is Ok <==> is_supported(opcode),
        decoded matches Ok(instruction) ==> instruction.wf(),
        decoded matches Err(fault) ==> fault == Fault::UnsupportedInstruction(opcode),
{
    let x: u8 = register_x(opcode);
    let y: u8 = register_y(opcode);
    let n16: u16 = opcode & 0x000F;
    let nn16: u16 = opcode & 0x00FF;
    let nnn: u16 = opcode & 0x0FFF;
    let group: u16 = opcode & 0xF000;
    assert(n16 == opcode % 0x10 && nn16 == opcode % 0x100 && nnn == opcode % 0x1000 && group
        == (opcode / 0x1000) * 0x1000) by (bit_vector)
        requires
            n16 == opcode & 0x000F,
            nn16 == opcode & 0x00FF,
            nnn == opcode & 0x0FFF,
            group == opcode & 0xF000,
    ;
    let n: u8 = n16 as u8;
    let nn: u8 = nn16 as u8;
    let unsupported = Err(Fault::UnsupportedInstruction(opcode));
    match group {
        0x1000 => Ok(Instruction::Jump { address: nnn }),
        0x3000 => Ok(Instruction::SkipIfEqual { x, value: nn }),
        0x4000 => Ok(Instruction::SkipIfNotEqual { x, value: nn }),
        0x6000 => Ok(Instruction::Load { x, value: nn }),
        0x7000 => Ok(Instruction::Add { x, value: nn }),
        0x8000 => match n {
            0x2 => Ok(Instruction::And { x, y }),
            0x4 => Ok(Instruction::AddRegisters { x, y }),
            _ => unsupported,
        },
        0xA000 => Ok(Instruction::LoadIndex { address: nnn }),
        0xC000 => Ok(Instruction::Random { x, mask: nn }),
        0xD000 => Ok(Instruction::Draw { x, y, height: n }),
        0xE000 => match nn {
            0x9E => Ok(Instruction::SkipIfKey { x }),
            0xA1 => Ok(Instruction::SkipIfNotKey { x }),
            _ => unsupported,
        },
        0xF000 => match nn {
            0x0A => Ok(Instruction::WaitKey { x }),
            0x18 => Ok(Instruction::SetSoundTimer { x }),
            0x29 => Ok(Instruction::LoadGlyph { x }),
            0x33 => Ok(Instruction::StoreBcd { x }),
            0x65 => Ok(Instruction::LoadRegisters { x }),
            _ => unsupported,
        },
        _ => unsupported,
    }
}

} // verus!
