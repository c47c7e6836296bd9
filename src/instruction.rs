use vstd::prelude::*;

verus! {

/// A fetched 16-bit opcode split into its fields.
#[derive(Debug, Clone, Copy, PartialEq, Eq, Structural)]
pub struct Instruction {
    /// The top nibble, which selects the instruction family.
    pub header: u8,
    /// The low 12 bits, an address.
    pub nnn: u16,
    /// The low byte, an immediate value.
    pub nn: u8,
    /// The low nibble, an immediate value or a sub-selector.
    pub n: u8,
    /// The second nibble, a register index.
    pub x: usize,
    /// The third nibble, a register index.
    pub y: usize,
}

/// The fields of `opcode`, read as digits of its base-16 expansion.
pub open spec fn decode(opcode: u16) -> Instruction {
    Instruction {
        header: (opcode / 4096) as u8,
        nnn: (opcode % 4096) as u16,
        nn: (opcode % 256) as u8,
        n: (opcode % 16) as u8,
        x: ((opcode / 256) % 16) as usize,
        y: ((opcode / 16) % 16) as usize,
    }
}

/// The big-endian opcode made of the bytes `high` and `low`.
pub open spec fn opcode_of(high: u8, low: u8) -> u16 {
    (high * 256 + low) as u16
}

/// Every field of a decoded instruction is within the width it was cut from.
pub open spec fn fields_in_range(ins: Instruction) -> bool {
    &&& ins.header < 16
    &&& ins.nnn < 4096
    &&& ins.n < 16
    &&& ins.x < 16
    &&& ins.y < 16
}

pub proof fn lemma_decode_in_range(opcode: u16)
    ensures
        fields_in_range(decode(opcode)),
{
}

impl Instruction {
    pub fn with_opcode(opcode: u16) -> (r: Self)
        ensures
            r == decode(opcode),
    {
        let header = (opcode >> 12 & 0xf) as u8;
        let nnn = opcode & 0xfff;
        let nn = (opcode & 0xff) as u8;
        let n = (opcode & 0x0f) as u8;
        let x = (opcode >> 8 & 0xf) as usize;
        let y = (opcode >> 4 & 0xf) as usize;
        assert(opcode >> 12 & 0xf == opcode / 4096) by (bit_vector);
        assert(opcode & 0xfff == opcode % 4096) by (bit_vector);
        assert(opcode & 0xff == opcode % 256) by (bit_vector);
        assert(opcode & 0x0f == opcode % 16) by (bit_vector);
        assert(opcode >> 8 & 0xf == (opcode / 256) % 16) by (bit_vector);
        assert(opcode >> 4 & 0xf == (opcode / 16) % 16) by (bit_vector);
        Self { header, nnn, nn, n, x, y }
    }

    pub fn with_bytes(high: u8, low: u8) -> (r: Self)
        ensures
            r == decode(opcode_of(high, low)),
    {
        let opcode = (high as u16) << 8 | low as u16;
        assert((high as u16) << 8 | low as u16 == high * 256 + low) by (bit_vector);
        Self::with_opcode(opcode)
    }
}

} // verus!
