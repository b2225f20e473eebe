//! Instruction words, their decoding, and the fatal error taxonomy.
//!
//! A CHIP-8 instruction is a 16-bit word fetched big-endian at the program
//! counter.  `decode` turns the word into a tagged `Instr` variant, one per
//! opcode family, so the whole transition table is a single flat lookup.
//! Any bit pattern outside the 34 recognised shapes decodes to `None` and the
//! dispatcher turns that into `Chip8Error::UnknownOpcode` — never a silent
//! no-op.  The legacy `0NNN` machine-call is deliberately rejected the same
//! way: this machine has no host routines to jump into.

use vstd::prelude::*;

verus! {

/// A fatal execution failure.  None of these is recoverable: the dispatcher
/// surfaces the failure and leaves the machine state exactly as it was.
#[derive(Clone, Copy, Debug, PartialEq, Eq, Structural)]
pub enum Chip8Error {
    /// The fetched word matches no recognised opcode shape.  Carries the
    /// program counter of the fetch and the raw word.
    UnknownOpcode { pc: u16, word: u16 },
    /// A memory access reached outside `[0, 4096)`.  Carries the first
    /// address of the access range that lies out of bounds.
    OutOfBoundsAccess { addr: u32 },
    /// `CALL` with all 16 stack slots in use.
    StackOverflow,
    /// `RET` with an empty call stack.
    StackUnderflow,
}

/// One decoded instruction.  Register operands are always nibbles, so every
/// `u8` field is below 16; address fields are 12 bits.
#[derive(Clone, Copy, Debug, PartialEq, Eq, Structural)]
pub enum Instr {
    /// `00E0`: clear the framebuffer.
    Cls,
    /// `00EE`: pop the call stack into the program counter.
    Ret,
    /// `1NNN`: jump to NNN.
    Jump(u16),
    /// `2NNN`: push the current program counter, jump to NNN.
    Call(u16),
    /// `3XNN`: skip the next instruction if VX == NN.
    SkipEqImm(u8, u8),
    /// `4XNN`: skip the next instruction if VX != NN.
    SkipNeImm(u8, u8),
    /// `5XY0`: skip the next instruction if VX == VY.
    SkipEqReg(u8, u8),
    /// `6XNN`: VX = NN.
    SetImm(u8, u8),
    /// `7XNN`: VX = VX + NN, wrapping, no flag.
    AddImm(u8, u8),
    /// `8XY0`: VX = VY.
    Assign(u8, u8),
    /// `8XY1`: VX = VX | VY.
    OrReg(u8, u8),
    /// `8XY2`: VX = VX & VY.
    AndReg(u8, u8),
    /// `8XY3`: VX = VX ^ VY.
    XorReg(u8, u8),
    /// `8XY4`: VX = VX + VY wrapping; VF = 1 iff the sum exceeds 255.
    AddReg(u8, u8),
    /// `8XY5`: VX = VX - VY wrapping; VF = 1 iff VX >= VY (no borrow).
    SubReg(u8, u8),
    /// `8XY6`: VF = VX & 1, then VX = VX >> 1.
    ShrReg(u8),
    /// `8XY7`: VX = VY - VX wrapping; VF = 1 iff VY >= VX (no borrow).
    SubnReg(u8, u8),
    /// `8XYE`: VF = 1 iff the top bit of VX is set, then VX = VX << 1.
    ShlReg(u8),
    /// `9XY0`: skip the next instruction if VX != VY.
    SkipNeReg(u8, u8),
    /// `ANNN`: I = NNN.
    SetIndex(u16),
    /// `BNNN`: jump to NNN + V0.
    JumpV0(u16),
    /// `CXNN`: VX = NN & next pseudo-random byte.
    Rand(u8, u8),
    /// `DXYN`: XOR-draw the N-byte sprite at I onto the framebuffer at
    /// (VX, VY); VF = 1 iff a lit pixel was erased.
    Draw(u8, u8, u8),
    /// `EX9E`: skip the next instruction if key VX is pressed.
    SkipKey(u8),
    /// `EXA1`: skip the next instruction if key VX is not pressed.
    SkipNoKey(u8),
    /// `FX07`: VX = delay timer.
    ReadDelay(u8),
    /// `FX0A`: park until a key is pressed, then VX = its code.
    WaitKey(u8),
    /// `FX15`: delay timer = VX.
    SetDelay(u8),
    /// `FX18`: sound timer = VX.
    SetSound(u8),
    /// `FX1E`: I = (I + VX) mod 0x1000; VF = 1 iff the sum passed 0xFFF.
    AddIndex(u8),
    /// `FX29`: I = VX * 5, the address of the font glyph for digit VX.
    FontAddr(u8),
    /// `FX33`: write the decimal digits of VX to I, I+1, I+2.
    StoreBcd(u8),
    /// `FX55`: write V0..=VX to memory at I; I itself is left unchanged.
    StoreRegs(u8),
    /// `FX65`: read V0..=VX from memory at I; I itself is left unchanged.
    FillRegs(u8),
}

/// The X operand: the second nibble of the word.
pub open spec fn op_x(word: u16) -> u8 {
    ((word >> 8) & 0xF) as u8
}

/// The Y operand: the third nibble of the word.
pub open spec fn op_y(word: u16) -> u8 {
    ((word >> 4) & 0xF) as u8
}

/// The low nibble of the word.
pub open spec fn op_n(word: u16) -> u8 {
    (word & 0xF) as u8
}

/// The low byte of the word.
pub open spec fn op_kk(word: u16) -> u8 {
    (word & 0xFF) as u8
}

/// The low 12 bits of the word, an address.
pub open spec fn op_nnn(word: u16) -> u16 {
    word & 0xFFF
}

/// Every operand field is bounded by its width: nibbles are below 16 and
/// addresses fit in 12 bits.
pub proof fn lemma_op_field_bounds(word: u16)
    ensures
        op_x(word) < 16,
        op_y(word) < 16,
        op_n(word) < 16,
        op_nnn(word) <= 0xFFF,
{
    assert(((word >> 8) & 0xF) < 16 && ((word >> 4) & 0xF) < 16 && (word & 0xF) < 16 && (word
        & 0xFFF) <= 0xFFF) by (bit_vector);
}

/// The decode table as a mathematical function of the instruction word.
pub open spec fn spec_decode(word: u16) -> Option<Instr> {
    let x = op_x(word);
    let y = op_y(word);
    let n = op_n(word);
    let kk = op_kk(word);
    let nnn = op_nnn(word);
    if word == 0x00E0 {
        Some(Instr::Cls)
    } else if word == 0x00EE {
        Some(Instr::Ret)
    } else {
        match word >> 12 {
            0x1 => Some(Instr::Jump(nnn)),
            0x2 => Some(Instr::Call(nnn)),
            0x3 => Some(Instr::SkipEqImm(x, kk)),
            0x4 => Some(Instr::SkipNeImm(x, kk)),
            0x5 => if n == 0 {
                Some(Instr::SkipEqReg(x, y))
            } else {
                None
            },
            0x6 => Some(Instr::SetImm(x, kk)),
            0x7 => Some(Instr::AddImm(x, kk)),
            0x8 => match n {
                0x0 => Some(Instr::Assign(x, y)),
                0x1 => Some(Instr::OrReg(x, y)),
                0x2 => Some(Instr::AndReg(x, y)),
                0x3 => Some(Instr::XorReg(x, y)),
                0x4 => Some(Instr::AddReg(x, y)),
                0x5 => Some(Instr::SubReg(x, y)),
                0x6 => Some(Instr::ShrReg(x)),
                0x7 => Some(Instr::SubnReg(x, y)),
                0xE => Some(Instr::ShlReg(x)),
                _ => None,
            },
            0x9 => if n == 0 {
                Some(Instr::SkipNeReg(x, y))
            } else {
                None
            },
            0xA => Some(Instr::SetIndex(nnn)),
            0xB => Some(Instr::JumpV0(nnn)),
            0xC => Some(Instr::Rand(x, kk)),
            0xD => Some(Instr::Draw(x, y, n)),
            0xE => match kk {
                0x9E => Some(Instr::SkipKey(x)),
                0xA1 => Some(Instr::SkipNoKey(x)),
                _ => None,
            },
            0xF => match kk {
                0x07 => Some(Instr::ReadDelay(x)),
                0x0A => Some(Instr::WaitKey(x)),
                0x15 => Some(Instr::SetDelay(x)),
                0x18 => Some(Instr::SetSound(x)),
                0x1E => Some(Instr::AddIndex(x)),
                0x29 => Some(Instr::FontAddr(x)),
                0x33 => Some(Instr::StoreBcd(x)),
                0x55 => Some(Instr::StoreRegs(x)),
                0x65 => Some(Instr::FillRegs(x)),
                _ => None,
            },
            _ => None,
        }
    }
}

/// Decode one instruction word, or report that no opcode matches.
pub fn decode(word: u16) -> (r: Option<Instr>)
    ensures
        r == spec_decode(word),
{
    let x = ((word >> 8) & 0xF) as u8;
    let y = ((word >> 4) & 0xF) as u8;
    let n = (word & 0xF) as u8;
    let kk = (word & 0xFF) as u8;
    let nnn = word & 0xFFF;
    if word == 0x00E0 {
        Some(Instr::Cls)
    } else if word == 0x00EE {
        Some(Instr::Ret)
    } else {
        match word >> 12 {
            0x1 => Some(Instr::Jump(nnn)),
            0x2 => Some(Instr::Call(nnn)),
            0x3 => Some(Instr::SkipEqImm(x, kk)),
            0x4 => Some(Instr::SkipNeImm(x, kk)),
            0x5 => if n == 0 {
                Some(Instr::SkipEqReg(x, y))
            } else {
                None
            },
            0x6 => Some(Instr::SetImm(x, kk)),
            0x7 => Some(Instr::AddImm(x, kk)),
            0x8 => match n {
                0x0 => Some(Instr::Assign(x, y)),
                0x1 => Some(Instr::OrReg(x, y)),
                0x2 => Some(Instr::AndReg(x, y)),
                0x3 => Some(Instr::XorReg(x, y)),
                0x4 => Some(Instr::AddReg(x, y)),
                0x5 => Some(Instr::SubReg(x, y)),
                0x6 => Some(Instr::ShrReg(x)),
                0x7 => Some(Instr::SubnReg(x, y)),
                0xE => Some(Instr::ShlReg(x)),
                _ => None,
            },
            0x9 => if n == 0 {
                Some(Instr::SkipNeReg(x, y))
            } else {
                None
            },
            0xA => Some(Instr::SetIndex(nnn)),
            0xB => Some(Instr::JumpV0(nnn)),
            0xC => Some(Instr::Rand(x, kk)),
            0xD => Some(Instr::Draw(x, y, n)),
            0xE => match kk {
                0x9E => Some(Instr::SkipKey(x)),
                0xA1 => Some(Instr::SkipNoKey(x)),
                _ => None,
            },
            0xF => match kk {
                0x07 => Some(Instr::ReadDelay(x)),
                0x0A => Some(Instr::WaitKey(x)),
                0x15 => Some(Instr::SetDelay(x)),
                0x18 => Some(Instr::SetSound(x)),
                0x1E => Some(Instr::AddIndex(x)),
                0x29 => Some(Instr::FontAddr(x)),
                0x33 => Some(Instr::StoreBcd(x)),
                0x55 => Some(Instr::StoreRegs(x)),
                0x65 => Some(Instr::FillRegs(x)),
                _ => None,
            },
            _ => None,
        }
    }
}

} // verus!
