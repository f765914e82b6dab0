use vstd::prelude::*;

verus! {

/// The fields of one 16-bit instruction word.
#[derive(Clone, Copy, Debug, PartialEq, Eq, Structural)]
pub struct Opcode {
    /// Bits 12-15: the instruction family.
    pub category: u8,
    /// Bits 8-11: usually a register index.
    pub x: u8,
    /// Bits 4-7: usually a register index.
    pub y: u8,
    /// Bits 0-3: a 4-bit immediate or sub-selector.
    pub n: u8,
    /// Bits 0-7: an 8-bit immediate.
    pub nn: u8,
    /// Bits 0-11: a 12-bit address.
    pub nnn: u16,
}

/// The fields of `w`, each stated as a digit of `w` in base 16.
pub open spec fn decoded(w: u16) -> Opcode {
    Opcode {
        category: (w / 0x1000) as u8,
        x: ((w / 0x100) % 0x10) as u8,
        y: ((w / 0x10) % 0x10) as u8,
        n: (w % 0x10) as u8,
        nn: (w % 0x100) as u8,
        nnn: (w % 0x1000) as u16,
    }
}

impl Opcode {
    /// Every field is within the width of the bits it comes from.
    pub open spec fn fits(self) -> bool {
        &&& self.category < 16
        &&& self.x < 16
        &&& self.y < 16
        &&& self.n < 16
        &&& self.nnn < 0x1000
    }

    /// Splits an instruction word into its fields. Total: every word decodes.
    pub fn decode(instruction: u16) -> (r: Opcode)
        ensures
            r == decoded(instruction),
            r.fits(),
    {
        let w = instruction;
        assert(((w & 0xF000) >> 12) == w / 0x1000) by (bit_vector);
        assert(((w & 0x0F00) >> 8) == (w / 0x100) % 0x10) by (bit_vector);
        assert(((w & 0x00F0) >> 4) == (w / 0x10) % 0x10) by (bit_vector);
        assert((w & 0x000F) == w % 0x10) by (bit_vector);
        assert((w & 0x00FF) == w % 0x100) by (bit_vector);
        assert((w & 0x0FFF) == w % 0x1000) by (bit_vector);
        Opcode {
            category: ((w & 0xF000) >> 12) as u8,
            x: ((w & 0x0F00) >> 8) as u8,
            y: ((w & 0x00F0) >> 4) as u8,
            n: (w & 0x000F) as u8,
            nn: (w & 0x00FF) as u8,
            nnn: w & 0x0FFF,
        }
    }
}

} // verus!
