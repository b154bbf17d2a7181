//! The decoder: one raw 16-bit opcode becomes exactly one value of a closed
//! instruction set, or an `InvalidOpcode` error. Decoding is a pure function
//! of the opcode; `spec_decode` is its specification and `Instruction::from`
//! the verified implementation.
//!
//! Bit layout of an opcode, most significant nibble first: `i` selects the
//! instruction family, `x` and `y` are 4-bit register selectors, `n` a 4-bit
//! immediate, `nn` the low byte, and `nnn` the low 12 bits (an address).

use vstd::prelude::*;

use crate::error::Chip8Error;

verus! {

/// One decoded instruction, with its operand fields extracted.
///
/// The doc comment of each variant gives the opcode pattern it decodes from.
#[derive(Clone, Copy, Debug, PartialEq, Eq, Structural)]
pub enum Instruction {
    /// 00E0
    Clear,
    /// 00EE
    Ret,
    /// 1NNN
    Jump(u16),
    /// 2NNN
    Call(u16),
    /// 3XNN
    SkipEqualByte(u8, u8),
    /// 4XNN
    SkipNotEqualByte(u8, u8),
    /// 5XY0
    SkipEqualRegisters(u8, u8),
    /// 6XNN
    LoadByte(u8, u8),
    /// 7XNN
    AddRegister(u8, u8),
    /// 8XY0
    LoadRegister(u8, u8),
    /// 8XY1
    Or(u8, u8),
    /// 8XY2
    And(u8, u8),
    /// 8XY3
    Xor(u8, u8),
    /// 8XY4
    Add(u8, u8),
    /// 8XY5
    Subtract(u8, u8),
    /// 8XY6
    Shr(u8, u8),
    /// 8XY7
    SubtractRev(u8, u8),
    /// 8XYE
    Shl(u8, u8),
    /// 9XY0
    SkipNotEqualRegisters(u8, u8),
    /// ANNN
    LoadI(u16),
    /// BNNN
    JumpOffset(u8, u16),
    /// CXNN
    Random(u8, u8),
    /// DXYN
    Draw(u8, u8, u8),
    /// EX9E
    SkipKeyPressed(u8),
    /// EXA1
    SkipKeyReleased(u8),
    /// FX07
    LoadDelayTimer(u8),
    /// FX0A
    GetKey(u8),
    /// FX15
    SetDelayTimer(u8),
    /// FX18
    SetSoundTimer(u8),
    /// FX1E
    AddI(u8),
    /// FX29
    LoadFont(u8),
    /// FX33
    LoadBcd(u8),
    /// FX55
    StoreMemory(u8),
    /// FX65
    LoadMemory(u8),
}

impl Instruction {
    /// Every operand field is in range: register selectors and 4-bit
    /// immediates below 16, addresses below 4096. Decoding only ever
    /// produces such instructions, because the fields are cut from an
    /// opcode's nibbles.
    pub open spec fn wf(self) -> bool {
        match self {
            Instruction::Clear => true,
            Instruction::Ret => true,
            Instruction::Jump(nnn) => nnn < 4096,
            Instruction::Call(nnn) => nnn < 4096,
            Instruction::SkipEqualByte(x, _nn) => x < 16,
            Instruction::SkipNotEqualByte(x, _nn) => x < 16,
            Instruction::SkipEqualRegisters(x, y) => x < 16 && y < 16,
            Instruction::LoadByte(x, _nn) => x < 16,
            Instruction::AddRegister(x, _nn) => x < 16,
            Instruction::LoadRegister(x, y) => x < 16 && y < 16,
            Instruction::Or(x, y) => x < 16 && y < 16,
            Instruction::And(x, y) => x < 16 && y < 16,
            Instruction::Xor(x, y) => x < 16 && y < 16,
            Instruction::Add(x, y) => x < 16 && y < 16,
            Instruction::Subtract(x, y) => x < 16 && y < 16,
            Instruction::Shr(x, y) => x < 16 && y < 16,
            Instruction::SubtractRev(x, y) => x < 16 && y < 16,
            Instruction::Shl(x, y) => x < 16 && y < 16,
            Instruction::SkipNotEqualRegisters(x, y) => x < 16 && y < 16,
            Instruction::LoadI(nnn) => nnn < 4096,
            Instruction::JumpOffset(x, nnn) => x < 16 && nnn < 4096,
            Instruction::Random(x, _nn) => x < 16,
            Instruction::Draw(x, y, n) => x < 16 && y < 16 && n < 16,
            Instruction::SkipKeyPressed(x) => x < 16,
            Instruction::SkipKeyReleased(x) => x < 16,
            Instruction::LoadDelayTimer(x) => x < 16,
            Instruction::GetKey(x) => x < 16,
            Instruction::SetDelayTimer(x) => x < 16,
            Instruction::SetSoundTimer(x) => x < 16,
            Instruction::AddI(x) => x < 16,
            Instruction::LoadFont(x) => x < 16,
            Instruction::LoadBcd(x) => x < 16,
            Instruction::StoreMemory(x) => x < 16,
            Instruction::LoadMemory(x) => x < 16,
        }
    }
}

/// What decoding an opcode yields: the instruction selected by the family
/// nibble `i` and, for families 0x0, 0x8, 0xE and 0xF, a secondary dispatch
/// on `nn` or `n`; any pattern outside the table is an `InvalidOpcode`.
pub open spec fn spec_decode(opcode: u16) -> Result<Instruction, Chip8Error> {
    let i = (opcode & 0xF000) >> 12;
    let x = ((opcode & 0x0F00) >> 8) as u8;
    let y = ((opcode & 0x00F0) >> 4) as u8;
    let n = (opcode & 0x000F) as u8;
    let nn = (opcode & 0x00FF) as u8;
    let nnn = opcode & 0x0FFF;
    if i == 0x0 {
        if nn == 0xE0 {
            Ok(Instruction::Clear)
        } else if nn == 0xEE {
            Ok(Instruction::Ret)
        } else {
            Err(Chip8Error::InvalidOpcode(opcode))
        }
    } else if i == 0x1 {
        Ok(Instruction::Jump(nnn))
    } else if i == 0x2 {
        Ok(Instruction::Call(nnn))
    } else if i == 0x3 {
        Ok(Instruction::SkipEqualByte(x, nn))
    } else if i == 0x4 {
        Ok(Instruction::SkipNotEqualByte(x, nn))
    } else if i == 0x5 {
        if n == 0x0 {
            Ok(Instruction::SkipEqualRegisters(x, y))
        } else {
            Err(Chip8Error::InvalidOpcode(opcode))
        }
    } else if i == 0x6 {
        Ok(Instruction::LoadByte(x, nn))
    } else if i == 0x7 {
        Ok(Instruction::AddRegister(x, nn))
    } else if i == 0x8 {
        if n == 0x0 {
            Ok(Instruction::LoadRegister(x, y))
        } else if n == 0x1 {
            Ok(Instruction::Or(x, y))
        } else if n == 0x2 {
            Ok(Instruction::And(x, y))
        } else if n == 0x3 {
            Ok(Instruction::Xor(x, y))
        } else if n == 0x4 {
            Ok(Instruction::Add(x, y))
        } else if n == 0x5 {
            Ok(Instruction::Subtract(x, y))
        } else if n == 0x6 {
            Ok(Instruction::Shr(x, y))
        } else if n == 0x7 {
            Ok(Instruction::SubtractRev(x, y))
        } else if n == 0xE {
            Ok(Instruction::Shl(x, y))
        } else {
            Err(Chip8Error::InvalidOpcode(opcode))
        }
    } else if i == 0x9 {
        if n == 0x0 {
            Ok(Instruction::SkipNotEqualRegisters(x, y))
        } else {
            Err(Chip8Error::InvalidOpcode(opcode))
        }
    } else if i == 0xA {
        Ok(Instruction::LoadI(nnn))
    } else if i == 0xB {
        Ok(Instruction::JumpOffset(x, nnn))
    } else if i == 0xC {
        Ok(Instruction::Random(x, nn))
    } else if i == 0xD {
        Ok(Instruction::Draw(x, y, n))
    } else if i == 0xE {
        if nn == 0x9E {
            Ok(Instruction::SkipKeyPressed(x))
        } else if nn == 0xA1 {
            Ok(Instruction::SkipKeyReleased(x))
        } else {
            Err(Chip8Error::InvalidOpcode(opcode))
        }
    } else {
        if nn == 0x07 {
            Ok(Instruction::LoadDelayTimer(x))
        } else if nn == 0x0A {
            Ok(Instruction::GetKey(x))
        } else if nn == 0x15 {
            Ok(Instruction::SetDelayTimer(x))
        } else if nn == 0x18 {
            Ok(Instruction::SetSoundTimer(x))
        } else if nn == 0x1E {
            Ok(Instruction::AddI(x))
        } else if nn == 0x29 {
            Ok(Instruction::LoadFont(x))
        } else if nn == 0x33 {
            Ok(Instruction::LoadBcd(x))
        } else if nn == 0x55 {
            Ok(Instruction::StoreMemory(x))
        } else if nn == 0x65 {
            Ok(Instruction::LoadMemory(x))
        } else {
            Err(Chip8Error::InvalidOpcode(opcode))
        }
    }
}

impl Instruction {
    /// Decode one opcode. Returns `InvalidOpcode` on every pattern outside
    /// the instruction table; never silently falls back to a default.
    pub fn from(opcode: u16) -> (r: Result<Instruction, Chip8Error>)
        ensures
            r == spec_decode(opcode),
            r matches Ok(inst) ==> inst.wf(),
    {
        proof {
            assert((opcode & 0xF000) >> 12 < 16) by (bit_vector);
            assert(((opcode & 0x0F00) >> 8) < 16) by (bit_vector);
            assert(((opcode & 0x00F0) >> 4) < 16) by (bit_vector);
            assert((opcode & 0x000F) < 16) by (bit_vector);
            assert((opcode & 0x00FF) < 256) by (bit_vector);
            assert((opcode & 0x0FFF) < 4096) by (bit_vector);
        }
        let i = (opcode & 0xF000) >> 12;
        let x = ((opcode & 0x0F00) >> 8) as u8;
        let y = ((opcode & 0x00F0) >> 4) as u8;
        let n = (opcode & 0x000F) as u8;
        let nn = (opcode & 0x00FF) as u8;
        let nnn = opcode & 0x0FFF;
        if i == 0x0 {
            if nn == 0xE0 {
                Ok(Instruction::Clear)
            } else if nn == 0xEE {
                Ok(Instruction::Ret)
            } else {
                Err(Chip8Error::InvalidOpcode(opcode))
            }
        } else if i == 0x1 {
            Ok(Instruction::Jump(nnn))
        } else if i == 0x2 {
            Ok(Instruction::Call(nnn))
        } else if i == 0x3 {
            Ok(Instruction::SkipEqualByte(x, nn))
        } else if i == 0x4 {
            Ok(Instruction::SkipNotEqualByte(x, nn))
        } else if i == 0x5 {
            if n == 0x0 {
                Ok(Instruction::SkipEqualRegisters(x, y))
            } else {
                Err(Chip8Error::InvalidOpcode(opcode))
            }
        } else if i == 0x6 {
            Ok(Instruction::LoadByte(x, nn))
        } else if i == 0x7 {
            Ok(Instruction::AddRegister(x, nn))
        } else if i == 0x8 {
            if n == 0x0 {
                Ok(Instruction::LoadRegister(x, y))
            } else if n == 0x1 {
                Ok(Instruction::Or(x, y))
            } else if n == 0x2 {
                Ok(Instruction::And(x, y))
            } else if n == 0x3 {
                Ok(Instruction::Xor(x, y))
            } else if n == 0x4 {
                Ok(Instruction::Add(x, y))
            } else if n == 0x5 {
                Ok(Instruction::Subtract(x, y))
            } else if n == 0x6 {
                Ok(Instruction::Shr(x, y))
            } else if n == 0x7 {
                Ok(Instruction::SubtractRev(x, y))
            } else if n == 0xE {
                Ok(Instruction::Shl(x, y))
            } else {
                Err(Chip8Error::InvalidOpcode(opcode))
            }
        } else if i == 0x9 {
            if n == 0x0 {
                Ok(Instruction::SkipNotEqualRegisters(x, y))
            } else {
                Err(Chip8Error::InvalidOpcode(opcode))
            }
        } else if i == 0xA {
            Ok(Instruction::LoadI(nnn))
        } else if i == 0xB {
            Ok(Instruction::JumpOffset(x, nnn))
        } else if i == 0xC {
            Ok(Instruction::Random(x, nn))
        } else if i == 0xD {
            Ok(Instruction::Draw(x, y, n))
        } else if i == 0xE {
            if nn == 0x9E {
                Ok(Instruction::SkipKeyPressed(x))
            } else if nn == 0xA1 {
                Ok(Instruction::SkipKeyReleased(x))
            } else {
                Err(Chip8Error::InvalidOpcode(opcode))
            }
        } else {
            if nn == 0x07 {
                Ok(Instruction::LoadDelayTimer(x))
            } else if nn == 0x0A {
                Ok(Instruction::GetKey(x))
            } else if nn == 0x15 {
                Ok(Instruction::SetDelayTimer(x))
            } else if nn == 0x18 {
                Ok(Instruction::SetSoundTimer(x))
            } else if nn == 0x1E {
                Ok(Instruction::AddI(x))
            } else if nn == 0x29 {
                Ok(Instruction::LoadFont(x))
            } else if nn == 0x33 {
                Ok(Instruction::LoadBcd(x))
            } else if nn == 0x55 {
                Ok(Instruction::StoreMemory(x))
            } else if nn == 0x65 {
                Ok(Instruction::LoadMemory(x))
            } else {
                Err(Chip8Error::InvalidOpcode(opcode))
            }
        }
    }
}

} // verus!
