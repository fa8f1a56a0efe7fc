//! The instruction set as a closed set of variants, and the decoder from
//! 16-bit instruction words.

use vstd::prelude::*;

verus! {

/// A decoded instruction.
///
/// `x` and `y` name registers, `address` is a 12-bit memory address, `value`
/// an 8-bit immediate.
#[derive(Clone, Copy, Debug, PartialEq, Eq, Structural)]
pub enum Instruction {
    /// `00E0`: switch every display cell off.
    ClearScreen,
    /// `00EE`: return from a subroutine.
    Return,
    /// `1NNN`: continue at `address`.
    Jump { address: u16 },
    /// `2NNN`: call the subroutine at `address`.
    Call { address: u16 },
    /// `3XNN`: skip the next instruction if `VX == value`.
    SkipIfEqual { x: u8, value: u8 },
    /// `4XNN`: skip the next instruction if `VX != value`.
    SkipIfNotEqual { x: u8, value: u8 },
    /// `5XY0`: skip the next instruction if `VX == VY`.
    SkipIfRegistersEqual { x: u8, y: u8 },
    /// `6XNN`: `VX = value`.
    LoadImmediate { x: u8, value: u8 },
    /// `7XNN`: `VX = VX + value` modulo 256; VF is left alone.
    AddImmediate { x: u8, value: u8 },
    /// `8XY0`: `VX = VY`.
    Move { x: u8, y: u8 },
    /// `8XY1`: `VX = VX | VY`.
    Or { x: u8, y: u8 },
    /// `8XY2`: `VX = VX & VY`.
    And { x: u8, y: u8 },
    /// `8XY3`: `VX = VX ^ VY`.
    Xor { x: u8, y: u8 },
    /// `8XY4`: `VX = VX + VY` modulo 256, then `VF` = carry.
    Add { x: u8, y: u8 },
    /// `8XY5`: `VX = VX - VY` modulo 256, then `VF` = 1 unless a borrow
    /// was needed.
    Subtract { x: u8, y: u8 },
    /// `8XY6`: `VX = VX >> 1`, then `VF` = the bit shifted out. `VY` is not
    /// read.
    ShiftRight { x: u8, y: u8 },
    /// `8XY7`: `VX = VY - VX` modulo 256, then `VF` = 1 unless a borrow
    /// was needed.
    SubtractReversed { x: u8, y: u8 },
    /// `8XYE`: `VX = VX << 1` modulo 256, then `VF` = the bit shifted out.
    /// `VY` is not read.
    ShiftLeft { x: u8, y: u8 },
    /// `9XY0`: skip the next instruction if `VX != VY`.
    SkipIfRegistersNotEqual { x: u8, y: u8 },
    /// `ANNN`: `I = address`.
    LoadIndex { address: u16 },
    /// `BNNN`: continue at `address + V0`.
    JumpOffset { address: u16 },
    /// `CXNN`: `VX` = a random byte masked with `value`.
    Random { x: u8, value: u8 },
    /// `DXYN`: draw the sprite of `rows` bytes at `I` at column `VX`, row `VY`.
    Draw { x: u8, y: u8, rows: u8 },
    /// `EX9E`: skip the next instruction if key `VX` is held down.
    SkipIfKeyPressed { x: u8 },
    /// `EXA1`: skip the next instruction if key `VX` is not held down.
    SkipIfKeyNotPressed { x: u8 },
    /// `FX07`: `VX` = delay timer.
    ReadDelayTimer { x: u8 },
    /// `FX0A`: wait for a key press and store the key in `VX`.
    WaitForKey { x: u8 },
    /// `FX15`: delay timer = `VX`.
    SetDelayTimer { x: u8 },
    /// `FX18`: sound timer = `VX`.
    SetSoundTimer { x: u8 },
    /// `FX1E`: `I = I + VX` modulo 65536; VF is left alone.
    AddToIndex { x: u8 },
    /// `FX29`: `I` = address of the font glyph for the digit in `VX`.
    LoadGlyphAddress { x: u8 },
    /// `FX33`: store the three decimal digits of `VX` at `I`, `I+1`, `I+2`.
    StoreDecimal { x: u8 },
    /// `FX55`: store `V0..=VX` at `I..=I+X`.
    StoreRegisters { x: u8 },
    /// `FX65`: load `V0..=VX` from `I..=I+X`.
    LoadRegisters { x: u8 },
}

impl Instruction {
    /// Register numbers are below 16, addresses below 4096 and sprite heights
    /// below 16: what four-bit and twelve-bit fields can hold.
    pub open spec fn wf(self) -> bool {
        match self {
            Instruction::ClearScreen | Instruction::Return => true,
            Instruction::Jump { address }
            | Instruction::Call { address }
            | Instruction::LoadIndex { address }
            | Instruction::JumpOffset { address } => address < 0x1000,
            Instruction::SkipIfEqual { x, .. }
            | Instruction::SkipIfNotEqual { x, .. }
            | Instruction::LoadImmediate { x, .. }
            | Instruction::AddImmediate { x, .. }
            | Instruction::Random { x, .. }
            | Instruction::SkipIfKeyPressed { x }
            | Instruction::SkipIfKeyNotPressed { x }
            | Instruction::ReadDelayTimer { x }
            | Instruction::WaitForKey { x }
            | Instruction::SetDelayTimer { x }
            | Instruction::SetSoundTimer { x }
            | Instruction::AddToIndex { x }
            | Instruction::LoadGlyphAddress { x }
            | Instruction::StoreDecimal { x }
            | Instruction::StoreRegisters { x }
            | Instruction::LoadRegisters { x } => x < 16,
            Instruction::SkipIfRegistersEqual { x, y }
            | Instruction::Move { x, y }
            | Instruction::Or { x, y }
            | Instruction::And { x, y }
            | Instruction::Xor { x, y }
            | Instruction::Add { x, y }
            | Instruction::Subtract { x, y }
            | Instruction::ShiftRight { x, y }
            | Instruction::SubtractReversed { x, y }
            | Instruction::ShiftLeft { x, y }
            | Instruction::SkipIfRegistersNotEqual { x, y } => x < 16 && y < 16,
            Instruction::Draw { x, y, rows } => x < 16 && y < 16 && rows < 16,
        }
    }
}

/// The leading hexadecimal digit of an instruction word: its family.
pub open spec fn family(opcode: u16) -> u16 {
    opcode / 0x1000
}

/// The second hexadecimal digit: the register number `X`.
pub open spec fn field_x(opcode: u16) -> u8 {
    (opcode / 0x100 % 0x10) as u8
}

/// The third hexadecimal digit: the register number `Y`.
pub open spec fn field_y(opcode: u16) -> u8 {
    (opcode / 0x10 % 0x10) as u8
}

/// The last hexadecimal digit: `N`.
pub open spec fn field_n(opcode: u16) -> u8 {
    (opcode % 0x10) as u8
}

/// The low byte: the immediate `NN`.
pub open spec fn field_nn(opcode: u16) -> u8 {
    (opcode % 0x100) as u8
}

/// The low twelve bits: the address `NNN`.
pub open spec fn field_nnn(opcode: u16) -> u16 {
    opcode % 0x1000
}

/// The register-to-register family `8XY_`, selected by the last digit.
pub open spec fn decode_arithmetic(opcode: u16) -> Option<Instruction> {
    let x = field_x(opcode);
    let y = field_y(opcode);
    let n = field_n(opcode);
    if n == 0x0 {
        Some(Instruction::Move { x, y })
    } else if n == 0x1 {
        Some(Instruction::Or { x, y })
    } else if n == 0x2 {
        Some(Instruction::And { x, y })
    } else if n == 0x3 {
        Some(Instruction::Xor { x, y })
    } else if n == 0x4 {
        Some(Instruction::Add { x, y })
    } else if n == 0x5 {
        Some(Instruction::Subtract { x, y })
    } else if n == 0x6 {
        Some(Instruction::ShiftRight { x, y })
    } else if n == 0x7 {
        Some(Instruction::SubtractReversed { x, y })
    } else if n == 0xE {
        Some(Instruction::ShiftLeft { x, y })
    } else {
        None
    }
}

/// The families `EX__` and `FX__`, selected by the low byte.
pub open spec fn decode_miscellaneous(opcode: u16) -> Option<Instruction> {
    let x = field_x(opcode);
    let nn = field_nn(opcode);
    if family(opcode) == 0xE {
        if nn == 0x9E {
            Some(Instruction::SkipIfKeyPressed { x })
        } else if nn == 0xA1 {
            Some(Instruction::SkipIfKeyNotPressed { x })
        } else {
            None
        }
    } else if nn == 0x07 {
        Some(Instruction::ReadDelayTimer { x })
    } else if nn == 0x0A {
        Some(Instruction::WaitForKey { x })
    } else if nn == 0x15 {
        Some(Instruction::SetDelayTimer { x })
    } else if nn == 0x18 {
        Some(Instruction::SetSoundTimer { x })
    } else if nn == 0x1E {
        Some(Instruction::AddToIndex { x })
    } else if nn == 0x29 {
        Some(Instruction::LoadGlyphAddress { x })
    } else if nn == 0x33 {
        Some(Instruction::StoreDecimal { x })
    } else if nn == 0x55 {
        Some(Instruction::StoreRegisters { x })
    } else if nn == 0x65 {
        Some(Instruction::LoadRegisters { x })
    } else {
        None
    }
}

/// The instruction that a 16-bit word stands for, or `None` where the word is
/// not part of the instruction set.
///
/// In family 0 only `00E0` and `00EE` are instructions; `5XY_` and `9XY_` must
/// end in 0.
///
/// The definition is opaque to keep proofs about whole cycles small: a proof
/// that looks into a particular instruction word reveals it.
#[verifier::opaque]
pub open spec fn decode_spec(opcode: u16) -> Option<Instruction> {
    let kind = family(opcode);
    let x = field_x(opcode);
    let y = field_y(opcode);
    let n = field_n(opcode);
    let value = field_nn(opcode);
    let address = field_nnn(opcode);
    if kind == 0x0 {
        if opcode == 0x00E0 {
            Some(Instruction::ClearScreen)
        } else if opcode == 0x00EE {
            Some(Instruction::Return)
        } else {
            None
        }
    } else if kind == 0x1 {
        Some(Instruction::Jump { address })
    } else if kind == 0x2 {
        Some(Instruction::Call { address })
    } else if kind == 0x3 {
        Some(Instruction::SkipIfEqual { x, value })
    } else if kind == 0x4 {
        Some(Instruction::SkipIfNotEqual { x, value })
    } else if kind == 0x5 {
        if n == 0 {
            Some(Instruction::SkipIfRegistersEqual { x, y })
        } else {
            None
        }
    } else if kind == 0x6 {
        Some(Instruction::LoadImmediate { x, value })
    } else if kind == 0x7 {
        Some(Instruction::AddImmediate { x, value })
    } else if kind == 0x8 {
        decode_arithmetic(opcode)
    } else if kind == 0x9 {
        if n == 0 {
            Some(Instruction::SkipIfRegistersNotEqual { x, y })
        } else {
            None
        }
    } else if kind == 0xA {
        Some(Instruction::LoadIndex { address })
    } else if kind == 0xB {
        Some(Instruction::JumpOffset { address })
    } else if kind == 0xC {
        Some(Instruction::Random { x, value })
    } else if kind == 0xD {
        Some(Instruction::Draw { x, y, rows: n })
    } else {
        decode_miscellaneous(opcode)
    }
}

/// Every decoded instruction has its fields in range.
pub proof fn lemma_decode_wf(opcode: u16)
    ensures
        decode_spec(opcode) matches Some(instruction) ==> instruction.wf(),
{
    reveal(decode_spec);
}

fn decode_arithmetic_word(x: u8, y: u8, n: u8) -> (instruction: Option<Instruction>)
    ensures
        instruction == (if n == 0x0 {
            Some(Instruction::Move { x, y })
        } else if n == 0x1 {
            Some(Instruction::Or { x, y })
        } else if n == 0x2 {
            Some(Instruction::And { x, y })
        } else if n == 0x3 {
            Some(Instruction::Xor { x, y })
        } else if n == 0x4 {
            Some(Instruction::Add { x, y })
        } else if n == 0x5 {
            Some(Instruction::Subtract { x, y })
        } else if n == 0x6 {
            Some(Instruction::ShiftRight { x, y })
        } else if n == 0x7 {
            Some(Instruction::SubtractReversed { x, y })
        } else if n == 0xE {
            Some(Instruction::ShiftLeft { x, y })
        } else {
            None
        }),
{
    match n {
        0x0 => Some(Instruction::Move { x, y }),
        0x1 => Some(Instruction::Or { x, y }),
        0x2 => Some(Instruction::And { x, y }),
        0x3 => Some(Instruction::Xor { x, y }),
        0x4 => Some(Instruction::Add { x, y }),
        0x5 => Some(Instruction::Subtract { x, y }),
        0x6 => Some(Instruction::ShiftRight { x, y }),
        0x7 => Some(Instruction::SubtractReversed { x, y }),
        0xE => Some(Instruction::ShiftLeft { x, y }),
        _ => None,
    }
}

/// Decodes one instruction word.
pub fn decode(opcode: u16) -> (instruction: Option<Instruction>)
    ensures
        instruction == decode_spec(opcode),
        instruction matches Some(decoded) ==> decoded.wf(),
{
    let kind: u8 = (opcode >> 12) as u8;
    let x: u8 = ((opcode >> 8) & 0xF) as u8;
    let y: u8 = ((opcode >> 4) & 0xF) as u8;
    let n: u8 = (opcode & 0xF) as u8;
    let value: u8 = (opcode & 0xFF) as u8;
    let address: u16 = opcode & 0xFFF;
    proof {
        reveal(decode_spec);
        assert(opcode >> 12 == opcode / 0x1000) by (bit_vector);
        assert((opcode >> 8) & 0xF == opcode / 0x100 % 0x10) by (bit_vector);
        assert((opcode >> 4) & 0xF == opcode / 0x10 % 0x10) by (bit_vector);
        assert(opcode & 0xF == opcode % 0x10) by (bit_vector);
        assert(opcode & 0xFF == opcode % 0x100) by (bit_vector);
        assert(opcode & 0xFFF == opcode % 0x1000) by (bit_vector);
        lemma_decode_wf(opcode);
    }
    match kind {
        0x0 => {
            if opcode == 0x00E0 {
                Some(Instruction::ClearScreen)
            } else if opcode == 0x00EE {
                Some(Instruction::Return)
            } else {
                None
            }
        },
        0x1 => Some(Instruction::Jump { address }),
        0x2 => Some(Instruction::Call { address }),
        0x3 => Some(Instruction::SkipIfEqual { x, value }),
        0x4 => Some(Instruction::SkipIfNotEqual { x, value }),
        0x5 => {
            if n == 0 {
                Some(Instruction::SkipIfRegistersEqual { x, y })
            } else {
                None
            }
        },
        0x6 => Some(Instruction::LoadImmediate { x, value }),
        0x7 => Some(Instruction::AddImmediate { x, value }),
        0x8 => decode_arithmetic_word(x, y, n),
        0x9 => {
            if n == 0 {
                Some(Instruction::SkipIfRegistersNotEqual { x, y })
            } else {
                None
            }
        },
        0xA => Some(Instruction::LoadIndex { address }),
        0xB => Some(Instruction::JumpOffset { address }),
        0xC => Some(Instruction::Random { x, value }),
        0xD => Some(Instruction::Draw { x, y, rows: n }),
        0xE => match value {
            0x9E => Some(Instruction::SkipIfKeyPressed { x }),
            0xA1 => Some(Instruction::SkipIfKeyNotPressed { x }),
            _ => None,
        },
        _ => match value {
            0x07 => Some(Instruction::ReadDelayTimer { x }),
            0x0A => Some(Instruction::WaitForKey { x }),
            0x15 => Some(Instruction::SetDelayTimer { x }),
            0x18 => Some(Instruction::SetSoundTimer { x }),
            0x1E => Some(Instruction::AddToIndex { x }),
            0x29 => Some(Instruction::LoadGlyphAddress { x }),
            0x33 => Some(Instruction::StoreDecimal { x }),
            0x55 => Some(Instruction::StoreRegisters { x }),
            0x65 => Some(Instruction::LoadRegisters { x }),
            _ => None,
        },
    }
}

} // verus!
