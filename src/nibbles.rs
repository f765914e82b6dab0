use vstd::prelude::*;

use crate::opcode::decoded;

verus! {

/// The fields of one instruction word, as plain nibbles and bytes.
pub struct Nibbles {
    /// The first nibble: what kind of instruction it is.
    pub category: u8,
    /// The second nibble: one of the sixteen registers.
    pub x: u8,
    /// The third nibble: one of the sixteen registers.
    pub y: u8,
    /// The fourth nibble: a 4-bit number.
    pub n: u8,
    /// The second byte: an 8-bit immediate number.
    pub nn: u8,
    /// The last three nibbles: a 12-bit address.
    pub nnn: u16,
}

impl Nibbles {
    /// Splits `instruction` into the same fields as `Opcode::decode`.
    pub fn new(instruction: u16) -> (r: Self)
        ensures
            r.category == decoded(instruction).category,
            r.x == decoded(instruction).x,
            r.y == decoded(instruction).y,
            r.n == decoded(instruction).n,
            r.nn == decoded(instruction).nn,
            r.nnn == decoded(instruction).nnn,
    {
        let w = instruction;
        assert(((w & 0xF000) >> 12) == w / 0x1000) by (bit_vector);
        assert(((w & 0x0F00) >> 8) == (w / 0x100) % 0x10) by (bit_vector);
        assert(((w & 0x00F0) >> 4) == (w / 0x10) % 0x10) by (bit_vector);
        assert((w & 0x000F) == w % 0x10) by (bit_vector);
        assert((w & 0x00FF) == w % 0x100) by (bit_vector);
        assert((w & 0x0FFF) == w % 0x1000) by (bit_vector);
        Self {
            category: ((w & 0xF000) >> 12) as u8,
            x: ((w & 0x0F00) >> 8) as u8,
            y: ((w & 0x00F0) >> 4) as u8,
            n: (w & 0x000F) as u8,
            nn: (w & 0x00FF) as u8,
            nnn: w & 0x0FFF,
        }
    }
}

} // verus!
