//! The decoded instruction set.
//!
//! A raw word is decoded once into a closed enumeration and the execution
//! engine dispatches exhaustively over it, so "unknown opcode" is a single
//! explicit fallback variant rather than a scattering of partial matches.
//! Decoding is total and has no side effects.

use vstd::prelude::*;

verus! {

/// One decoded CHIP-8 instruction.
///
/// `x` and `y` are register indices (always below 16), `kk` a byte immediate,
/// `nnn` a 12-bit address and `n` a 4-bit immediate.
#[derive(Clone, Copy, Debug, PartialEq, Eq, Structural)]
pub enum Instr {
    /// `00E0`: clear the display region.
    Cls,
    /// `00EE`: return from a subroutine.
    Ret,
    /// `0nnn`: machine-code routine; ignored by modern interpreters.
    Sys { nnn: u16 },
    /// `1nnn`: jump.
    Jp { nnn: u16 },
    /// `2nnn`: call a subroutine.
    Call { nnn: u16 },
    /// `3xkk`: skip the next instruction if `Vx == kk`.
    SeVxByte { x: u8, kk: u8 },
    /// `4xkk`: skip the next instruction if `Vx != kk`.
    SneVxByte { x: u8, kk: u8 },
    /// `5xy0`: skip the next instruction if `Vx == Vy`.
    SeVxVy { x: u8, y: u8 },
    /// `6xkk`: `Vx = kk`.
    LdVxByte { x: u8, kk: u8 },
    /// `7xkk`: `Vx += kk`, wrapping, no carry flag.
    AddVxByte { x: u8, kk: u8 },
    /// `8xy0`: `Vx = Vy`.
    LdVxVy { x: u8, y: u8 },
    /// `8xy1`: `Vx |= Vy`.
    OrVxVy { x: u8, y: u8 },
    /// `8xy2`: `Vx &= Vy`.
    AndVxVy { x: u8, y: u8 },
    /// `8xy3`: `Vx ^= Vy`.
    XorVxVy { x: u8, y: u8 },
    /// `8xy4`: `Vx += Vy` with carry into `VF`.
    AddVxVy { x: u8, y: u8 },
    /// `8xy5`: `Vx -= Vy` with borrow flag into `VF`.
    SubVxVy { x: u8, y: u8 },
    /// `8xy6`: `Vx >>= 1`, shifted-out bit into `VF`.
    ShrVx { x: u8, y: u8 },
    /// `8xy7`: `Vx = Vy - Vx` with borrow flag into `VF`.
    SubnVxVy { x: u8, y: u8 },
    /// `8xyE`: `Vx <<= 1`, shifted-out bit into `VF`.
    ShlVx { x: u8, y: u8 },
    /// `9xy0`: skip the next instruction if `Vx != Vy`.
    SneVxVy { x: u8, y: u8 },
    /// `Annn`: `I = nnn`.
    LdI { nnn: u16 },
    /// `Bnnn`: jump to `nnn + V0`.
    JpV0 { nnn: u16 },
    /// `Cxkk`: `Vx = random byte AND kk`.
    RndVxByte { x: u8, kk: u8 },
    /// `Dxyn`: draw the 8-by-`n` sprite at `[I, I+n)` at `(Vx, Vy)`.
    DrwVxVyN { x: u8, y: u8, n: u8 },
    /// `Ex9E`: skip the next instruction if key `Vx` is pressed.
    SkpVx { x: u8 },
    /// `ExA1`: skip the next instruction if key `Vx` is not pressed.
    SknpVx { x: u8 },
    /// `Fx07`: `Vx = delay timer`.
    LdVxDt { x: u8 },
    /// `Fx15`: `delay timer = Vx`.
    LdDtVx { x: u8 },
    /// `Fx18`: `sound timer = Vx`.
    LdStVx { x: u8 },
    /// `Fx1E`: `I += Vx`, kept within the 12-bit address space.
    AddIVx { x: u8 },
    /// `Fx29`: point `I` at the font glyph for hex digit `Vx`.
    LdFVx { x: u8 },
    /// `Fx33`: write the decimal digits of `Vx` to `[I, I+3)`.
    LdBVx { x: u8 },
    /// `Fx55`: store `V0..Vx` to `[I, I+x]`.
    LdMemVx { x: u8 },
    /// `Fx65`: load `V0..Vx` from `[I, I+x]`.
    LdVxMem { x: u8 },
    /// A word with no defined mapping.
    Unknown { w: u16 },
}

/// Register-index field `x`: bits 8..12 of the word.
pub open spec fn x_field(w: u16) -> u8 {
    ((w >> 8) & 0xF) as u8
}

/// Register-index field `y`: bits 4..8 of the word.
pub open spec fn y_field(w: u16) -> u8 {
    ((w >> 4) & 0xF) as u8
}

/// Small-immediate field `n`: the low 4 bits of the word.
pub open spec fn n_field(w: u16) -> u8 {
    (w & 0xF) as u8
}

/// Address field `nnn`: the low 12 bits of the word.
pub open spec fn addr_field(w: u16) -> u16 {
    w & 0xFFF
}

/// Byte-immediate field `kk`: the low 8 bits of the word.
pub open spec fn byte_field(w: u16) -> u8 {
    (w & 0xFF) as u8
}

/// Total decoding of a raw word, keyed on its nibbles most-specific-first.
pub open spec fn spec_decode(w: u16) -> Instr {
    let top = w >> 12;
    let x = x_field(w);
    let y = y_field(w);
    let n = n_field(w);
    let nnn = addr_field(w);
    let kk = byte_field(w);
    if top == 0x0 {
        if w == 0x00E0 {
            Instr::Cls
        } else if w == 0x00EE {
            Instr::Ret
        } else {
            Instr::Sys { nnn }
        }
    } else if top == 0x1 {
        Instr::Jp { nnn }
    } else if top == 0x2 {
        Instr::Call { nnn }
    } else if top == 0x3 {
        Instr::SeVxByte { x, kk }
    } else if top == 0x4 {
        Instr::SneVxByte { x, kk }
    } else if top == 0x5 {
        if n == 0x0 {
            Instr::SeVxVy { x, y }
        } else {
            Instr::Unknown { w }
        }
    } else if top == 0x6 {
        Instr::LdVxByte { x, kk }
    } else if top == 0x7 {
        Instr::AddVxByte { x, kk }
    } else if top == 0x8 {
        if n == 0x0 {
            Instr::LdVxVy { x, y }
        } else if n == 0x1 {
            Instr::OrVxVy { x, y }
        } else if n == 0x2 {
            Instr::AndVxVy { x, y }
        } else if n == 0x3 {
            Instr::XorVxVy { x, y }
        } else if n == 0x4 {
            Instr::AddVxVy { x, y }
        } else if n == 0x5 {
            Instr::SubVxVy { x, y }
        } else if n == 0x6 {
            Instr::ShrVx { x, y }
        } else if n == 0x7 {
            Instr::SubnVxVy { x, y }
        } else if n == 0xE {
            Instr::ShlVx { x, y }
        } else {
            Instr::Unknown { w }
        }
    } else if top == 0x9 {
        if n == 0x0 {
            Instr::SneVxVy { x, y }
        } else {
            Instr::Unknown { w }
        }
    } else if top == 0xA {
        Instr::LdI { nnn }
    } else if top == 0xB {
        Instr::JpV0 { nnn }
    } else if top == 0xC {
        Instr::RndVxByte { x, kk }
    } else if top == 0xD {
        Instr::DrwVxVyN { x, y, n }
    } else if top == 0xE {
        if kk == 0x9E {
            Instr::SkpVx { x }
        } else if kk == 0xA1 {
            Instr::SknpVx { x }
        } else {
            Instr::Unknown { w }
        }
    } else {
        if kk == 0x07 {
            Instr::LdVxDt { x }
        } else if kk == 0x15 {
            Instr::LdDtVx { x }
        } else if kk == 0x18 {
            Instr::LdStVx { x }
        } else if kk == 0x1E {
            Instr::AddIVx { x }
        } else if kk == 0x29 {
            Instr::LdFVx { x }
        } else if kk == 0x33 {
            Instr::LdBVx { x }
        } else if kk == 0x55 {
            Instr::LdMemVx { x }
        } else if kk == 0x65 {
            Instr::LdVxMem { x }
        } else {
            Instr::Unknown { w }
        }
    }
}

/// Every register index decoded from a word is below 16, every address below
/// 0x1000 and every small immediate below 16.
pub open spec fn fields_bounded(ins: Instr) -> bool {
    match ins {
        Instr::Sys { nnn } => nnn < 0x1000,
        Instr::Jp { nnn } => nnn < 0x1000,
        Instr::Call { nnn } => nnn < 0x1000,
        Instr::LdI { nnn } => nnn < 0x1000,
        Instr::JpV0 { nnn } => nnn < 0x1000,
        Instr::SeVxByte { x, .. } => x < 16,
        Instr::SneVxByte { x, .. } => x < 16,
        Instr::LdVxByte { x, .. } => x < 16,
        Instr::AddVxByte { x, .. } => x < 16,
        Instr::RndVxByte { x, .. } => x < 16,
        Instr::SeVxVy { x, y } => x < 16 && y < 16,
        Instr::SneVxVy { x, y } => x < 16 && y < 16,
        Instr::LdVxVy { x, y } => x < 16 && y < 16,
        Instr::OrVxVy { x, y } => x < 16 && y < 16,
        Instr::AndVxVy { x, y } => x < 16 && y < 16,
        Instr::XorVxVy { x, y } => x < 16 && y < 16,
        Instr::AddVxVy { x, y } => x < 16 && y < 16,
        Instr::SubVxVy { x, y } => x < 16 && y < 16,
        Instr::ShrVx { x, y } => x < 16 && y < 16,
        Instr::SubnVxVy { x, y } => x < 16 && y < 16,
        Instr::ShlVx { x, y } => x < 16 && y < 16,
        Instr::DrwVxVyN { x, y, n } => x < 16 && y < 16 && n < 16,
        Instr::SkpVx { x } => x < 16,
        Instr::SknpVx { x } => x < 16,
        Instr::LdVxDt { x } => x < 16,
        Instr::LdDtVx { x } => x < 16,
        Instr::LdStVx { x } => x < 16,
        Instr::AddIVx { x } => x < 16,
        Instr::LdFVx { x } => x < 16,
        Instr::LdBVx { x } => x < 16,
        Instr::LdMemVx { x } => x < 16,
        Instr::LdVxMem { x } => x < 16,
        _ => true,
    }
}

/// The fields cut out of any word are in range for its variant.
pub proof fn lemma_decode_bounded(w: u16)
    ensures
        fields_bounded(spec_decode(w)),
{
    assert(((w >> 8) & 0xF) < 16 && ((w >> 4) & 0xF) < 16 && (w & 0xF) < 16 && (w & 0xFFF)
        < 0x1000) by (bit_vector);
}

/// Decode a raw word into an instruction.
pub fn decode(w: u16) -> (r: Instr)
    ensures
        r == spec_decode(w),
        fields_bounded(r),
{
    proof {
        lemma_decode_bounded(w);
    }
    let top = w >> 12;
    let x = ((w >> 8) & 0xF) as u8;
    let y = ((w >> 4) & 0xF) as u8;
    let n = (w & 0xF) as u8;
    let nnn = w & 0xFFF;
    let kk = (w & 0xFF) as u8;
    if top == 0x0 {
        if w == 0x00E0 {
            Instr::Cls
        } else if w == 0x00EE {
            Instr::Ret
        } else {
            Instr::Sys { nnn }
        }
    } else if top == 0x1 {
        Instr::Jp { nnn }
    } else if top == 0x2 {
        Instr::Call { nnn }
    } else if top == 0x3 {
        Instr::SeVxByte { x, kk }
    } else if top == 0x4 {
        Instr::SneVxByte { x, kk }
    } else if top == 0x5 {
        if n == 0x0 {
            Instr::SeVxVy { x, y }
        } else {
            Instr::Unknown { w }
        }
    } else if top == 0x6 {
        Instr::LdVxByte { x, kk }
    } else if top == 0x7 {
        Instr::AddVxByte { x, kk }
    } else if top == 0x8 {
        if n == 0x0 {
            Instr::LdVxVy { x, y }
        } else if n == 0x1 {
            Instr::OrVxVy { x, y }
        } else if n == 0x2 {
            Instr::AndVxVy { x, y }
        } else if n == 0x3 {
            Instr::XorVxVy { x, y }
        } else if n == 0x4 {
            Instr::AddVxVy { x, y }
        } else if n == 0x5 {
            Instr::SubVxVy { x, y }
        } else if n == 0x6 {
            Instr::ShrVx { x, y }
        } else if n == 0x7 {
            Instr::SubnVxVy { x, y }
        } else if n == 0xE {
            Instr::ShlVx { x, y }
        } else {
            Instr::Unknown { w }
        }
    } else if top == 0x9 {
        if n == 0x0 {
            Instr::SneVxVy { x, y }
        } else {
            Instr::Unknown { w }
        }
    } else if top == 0xA {
        Instr::LdI { nnn }
    } else if top == 0xB {
        Instr::JpV0 { nnn }
    } else if top == 0xC {
        Instr::RndVxByte { x, kk }
    } else if top == 0xD {
        Instr::DrwVxVyN { x, y, n }
    } else if top == 0xE {
        if kk == 0x9E {
            Instr::SkpVx { x }
        } else if kk == 0xA1 {
            Instr::SknpVx { x }
        } else {
            Instr::Unknown { w }
        }
    } else {
        if kk == 0x07 {
            Instr::LdVxDt { x }
        } else if kk == 0x15 {
            Instr::LdDtVx { x }
        } else if kk == 0x18 {
            Instr::LdStVx { x }
        } else if kk == 0x1E {
            Instr::AddIVx { x }
        } else if kk == 0x29 {
            Instr::LdFVx { x }
        } else if kk == 0x33 {
            Instr::LdBVx { x }
        } else if kk == 0x55 {
            Instr::LdMemVx { x }
        } else if kk == 0x65 {
            Instr::LdVxMem { x }
        } else {
            Instr::Unknown { w }
        }
    }
}

} // verus!
