//! The instruction set: the supported opcode table, the operand fields of a
//! 16-bit instruction word, and the decoder that maps a word to the
//! instruction it encodes (or to nothing, for an unsupported word).

use vstd::prelude::*;

verus! {

/// One instruction of the supported opcode table, named after its mnemonic.
/// Operand fields stay inside the 16-bit word; each handler extracts the
/// fields it needs.
#[derive(Clone, Copy, Debug, PartialEq, Eq, Structural)]
pub enum Instr {
    /// `00EE`: return from a subroutine.
    Ret,
    /// `1nnn`: jump to address `nnn`.
    JpAddr,
    /// `2nnn`: call the subroutine at address `nnn`.
    CallAddr,
    /// `3xkk`: skip the next instruction if `Vx == kk`.
    SeVxByte,
    /// `4xkk`: skip the next instruction if `Vx != kk`.
    SneVxByte,
    /// `6xkk`: load `kk` into `Vx`.
    LdVxByte,
    /// `7xkk`: add `kk` to `Vx`, wrapping, without touching the carry flag.
    AddVxByte,
    /// `8xy0`: copy `Vy` into `Vx`.
    LdVxVy,
    /// `8xy2`: bitwise-and `Vy` into `Vx`.
    AndVxVy,
    /// `8xy4`: add `Vy` to `Vx`; `VF` becomes the carry out of bit 7.
    AddVxVy,
    /// `8xy5`: subtract `Vy` from `Vx`; `VF` reports the absence of a borrow.
    SubVxVy,
    /// `Annn`: load `nnn` into the index register.
    LdIAddr,
    /// `Cxkk`: load a random byte masked by `kk` into `Vx`.
    RndVxByte,
    /// `Dxyn`: draw an `n`-row sprite at `(Vx, Vy)` by XOR.
    DrwVxVyN,
    /// `ExA1`: skip the next instruction if key `Vx` is not pressed.
    SknpVx,
    /// `Fx07`: load the delay timer into `Vx`.
    LdVxDt,
    /// `Fx15`: load `Vx` into the delay timer.
    LdDtVx,
    /// `Fx18`: load `Vx` into the sound timer.
    LdStVx,
    /// `Fx29`: point the index register at the font glyph for `Vx`.
    LdFVx,
    /// `Fx33`: store the decimal digits of `Vx` at `memory[I..I+3]`.
    LdBVx,
    /// `Fx65`: load registers `V0..Vx` from `memory[I..I+x]`.
    LdVxI,
}

/// A non-recoverable condition that halts the engine. There is no
/// recovery path: every one is reported to the host as a value, and the
/// machine state is left exactly as it was when the fault was detected.
#[derive(Clone, Copy, Debug, PartialEq, Eq, Structural)]
pub enum Fault {
    /// The fetched word matches no entry of the supported opcode table.
    /// Carries the raw word.
    UnsupportedOpcode(u16),
    /// The program counter does not leave room for a two-byte fetch.
    FetchOutOfBounds,
    /// `RET` with an empty call stack.
    StackUnderflow,
    /// `CALL` with all sixteen stack slots in use.
    StackOverflow,
    /// An effective memory address of the instruction lies past the 4096
    /// byte cells, or a popped return address has no room for the `+ 2`
    /// step past the call site.
    AddressOutOfBounds,
    /// A key index of sixteen or more, outside the sixteen-key latch.
    KeyOutOfRange,
}

/// The register index `x`, bits 8-11 of the instruction word.
pub open spec fn op_x(op: u16) -> u16 {
    (op & 0x0F00) >> 8
}

/// The register index `y`, bits 4-7 of the instruction word.
pub open spec fn op_y(op: u16) -> u16 {
    (op & 0x00F0) >> 4
}

/// The immediate byte `kk`, the low 8 bits of the instruction word.
pub open spec fn op_kk(op: u16) -> u8 {
    (op & 0x00FF) as u8
}

/// The address `nnn`, the low 12 bits of the instruction word.
pub open spec fn op_nnn(op: u16) -> u16 {
    op & 0x0FFF
}

/// The nibble count `n`, the low 4 bits of the instruction word.
pub open spec fn op_n(op: u16) -> u16 {
    op & 0x000F
}

/// Every operand field is bounded by its width: 4-bit fields stay below
/// 16 and the 12-bit address field below 4096.
pub proof fn lemma_operand_bounds(op: u16)
    ensures
        op_x(op) < 16,
        op_y(op) < 16,
        op_n(op) < 16,
        op_nnn(op) < 4096,
{
    assert((op & 0x0F00) >> 8 < 16) by (bit_vector);
    assert((op & 0x00F0) >> 4 < 16) by (bit_vector);
    assert(op & 0x000F < 16) by (bit_vector);
    assert(op & 0x0FFF < 4096) by (bit_vector);
}

/// What a 16-bit word decodes to: the matching entry of the opcode table,
/// or `None` when no entry matches. Dispatch goes by the four 4-bit
/// nibbles: the first selects the family, the last (or the last two)
/// selects within it where the family has fixed trailing nibbles.
pub open spec fn spec_decode(op: u16) -> Option<Instr> {
    let n1 = (op & 0xF000) >> 12;
    let n2 = (op & 0x0F00) >> 8;
    let n3 = (op & 0x00F0) >> 4;
    let n4 = op & 0x000F;
    if n1 == 0x0 && n2 == 0x0 && n3 == 0xE && n4 == 0xE {
        Some(Instr::Ret)
    } else if n1 == 0x1 {
        Some(Instr::JpAddr)
    } else if n1 == 0x2 {
        Some(Instr::CallAddr)
    } else if n1 == 0x3 {
        Some(Instr::SeVxByte)
    } else if n1 == 0x4 {
        Some(Instr::SneVxByte)
    } else if n1 == 0x6 {
        Some(Instr::LdVxByte)
    } else if n1 == 0x7 {
        Some(Instr::AddVxByte)
    } else if n1 == 0x8 && n4 == 0x0 {
        Some(Instr::LdVxVy)
    } else if n1 == 0x8 && n4 == 0x2 {
        Some(Instr::AndVxVy)
    } else if n1 == 0x8 && n4 == 0x4 {
        Some(Instr::AddVxVy)
    } else if n1 == 0x8 && n4 == 0x5 {
        Some(Instr::SubVxVy)
    } else if n1 == 0xA {
        Some(Instr::LdIAddr)
    } else if n1 == 0xC {
        Some(Instr::RndVxByte)
    } else if n1 == 0xD {
        Some(Instr::DrwVxVyN)
    } else if n1 == 0xE && n3 == 0xA && n4 == 0x1 {
        Some(Instr::SknpVx)
    } else if n1 == 0xF && n3 == 0x0 && n4 == 0x7 {
        Some(Instr::LdVxDt)
    } else if n1 == 0xF && n3 == 0x1 && n4 == 0x5 {
        Some(Instr::LdDtVx)
    } else if n1 == 0xF && n3 == 0x1 && n4 == 0x8 {
        Some(Instr::LdStVx)
    } else if n1 == 0xF && n3 == 0x2 && n4 == 0x9 {
        Some(Instr::LdFVx)
    } else if n1 == 0xF && n3 == 0x3 && n4 == 0x3 {
        Some(Instr::LdBVx)
    } else if n1 == 0xF && n3 == 0x6 && n4 == 0x5 {
        Some(Instr::LdVxI)
    } else {
        None
    }
}

/// Decode a fetched word against the opcode table.
pub fn decode(op: u16) -> (r: Option<Instr>)
    ensures
        r == spec_decode(op),
{
    let n1 = (op & 0xF000) >> 12;
    let n2 = (op & 0x0F00) >> 8;
    let n3 = (op & 0x00F0) >> 4;
    let n4 = op & 0x000F;
    match (n1, n2, n3, n4) {
        (0x0, 0x0, 0xE, 0xE) => Some(Instr::Ret),
        (0x1, _, _, _) => Some(Instr::JpAddr),
        (0x2, _, _, _) => Some(Instr::CallAddr),
        (0x3, _, _, _) => Some(Instr::SeVxByte),
        (0x4, _, _, _) => Some(Instr::SneVxByte),
        (0x6, _, _, _) => Some(Instr::LdVxByte),
        (0x7, _, _, _) => Some(Instr::AddVxByte),
        (0x8, _, _, 0x0) => Some(Instr::LdVxVy),
        (0x8, _, _, 0x2) => Some(Instr::AndVxVy),
        (0x8, _, _, 0x4) => Some(Instr::AddVxVy),
        (0x8, _, _, 0x5) => Some(Instr::SubVxVy),
        (0xA, _, _, _) => Some(Instr::LdIAddr),
        (0xC, _, _, _) => Some(Instr::RndVxByte),
        (0xD, _, _, _) => Some(Instr::DrwVxVyN),
        (0xE, _, 0xA, 0x1) => Some(Instr::SknpVx),
        (0xF, _, 0x0, 0x7) => Some(Instr::LdVxDt),
        (0xF, _, 0x1, 0x5) => Some(Instr::LdDtVx),
        (0xF, _, 0x1, 0x8) => Some(Instr::LdStVx),
        (0xF, _, 0x2, 0x9) => Some(Instr::LdFVx),
        (0xF, _, 0x3, 0x3) => Some(Instr::LdBVx),
        (0xF, _, 0x6, 0x5) => Some(Instr::LdVxI),
        _ => None,
    }
}

} // verus!
