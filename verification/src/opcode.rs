//! Raw 16-bit instruction words and their addressing fields.
//!
//! A CHIP-8 instruction is a big-endian 16-bit word.  Decoding it means
//! slicing it into four 4-bit nibbles plus the derived fields `nnn` (low 12
//! bits, an address) and `nn` (low 8 bits, a byte immediate).  Decoding is
//! total: every word has well-defined fields.

use vstd::prelude::*;

verus! {

/// A raw 16-bit CHIP-8 instruction word.
pub struct Opcode {
    value: u16,
}

impl View for Opcode {
    type V = u16;

    closed spec fn view(&self) -> u16 {
        self.value
    }
}

impl Opcode {
    pub fn new(value: u16) -> (r: Self)
        ensures
            r@ == value,
    {
        Self { value }
    }

    /// The whole instruction word.
    pub fn value(&self) -> (v: u16)
        ensures
            v == self@,
    {
        self.value
    }

    /// The four 4-bit nibbles of the word, highest first.
    pub fn per_4bits(&self) -> (r: (usize, usize, usize, usize))
        ensures
            r.0 == ((self@ >> 12) & 0xF) as usize,
            r.1 == ((self@ >> 8) & 0xF) as usize,
            r.2 == ((self@ >> 4) & 0xF) as usize,
            r.3 == (self@ & 0xF) as usize,
            r.0 < 16 && r.1 < 16 && r.2 < 16 && r.3 < 16,
    {
        let v = self.value;
        proof {
            assert((v >> 12) & 0xF < 16 && (v >> 8) & 0xF < 16 && (v >> 4) & 0xF < 16 && v & 0xF
                < 16) by (bit_vector);
        }
        (
            (((v >> 12) & 0xF) as usize),
            (((v >> 8) & 0xF) as usize),
            (((v >> 4) & 0xF) as usize),
            ((v & 0xF) as usize),
        )
    }

    /// The low 12 bits: the address field of the word.
    pub fn nnn(&self) -> (r: u16)
        ensures
            r == self@ & 0xFFF,
            r < 0x1000,
    {
        let v = self.value;
        proof {
            assert(v & 0xFFF < 0x1000) by (bit_vector);
        }
        v & 0x0FFF
    }

    /// The low 8 bits: the byte-immediate field of the word.
    pub fn nn(&self) -> (r: u8)
        ensures
            r == (self@ & 0xFF) as u8,
    {
        let v = self.value;
        proof {
            assert(v & 0xFF < 0x100) by (bit_vector);
        }
        (v & 0xFF) as u8
    }
}

} // verus!
