//! Direct-jump (JAL) encoding: range check of the displacement and the scattered
//! placement of its bits.
use vstd::prelude::*;

verus! {

/// Bits of a displacement that must be all clear or all set apart from bit 0,
/// which must be clear.
pub const OFFSET_MASK: u64 = 0xFFFF_FFFF_FFF0_0001;

/// The masked bits of a negative displacement that fits.
pub const OFFSET_NEGATIVE: u64 = 0xFFFF_FFFF_FFF0_0000;

/// Encoding of `addi x0, x0, 0`.
pub const NOP_WORD: u32 = 0x0000_0013;

/// Encoding of `c.j -4`, a compressed jump back to the preceding instruction.
pub const C_J_BACK_4: u16 = 0b1011_1111_1111_0101;

/// Whether a 64-bit displacement fits the even 21-bit signed field of JAL.
pub open spec fn offset_fits(off: u64) -> bool {
    (off & OFFSET_MASK) == 0 || (off & OFFSET_MASK) == OFFSET_NEGATIVE
}

/// JAL with destination register `rd` and displacement `off`, bits scattered as
/// the J format lays them out.
pub open spec fn jal_word(rd: u8, off: u64) -> u64 {
    0x6fu64 | ((rd as u64) << 7u64) | (((off >> 12u64) & 0xff) << 12u64) | (((off >> 11u64) & 1)
        << 20u64) | (((off >> 1u64) & 0x3ff) << 21u64) | (((off >> 20u64) & 1) << 31u64)
}

/// The 21-bit immediate that a J-format word carries, gathered back into place.
pub open spec fn jal_imm_field(w: u64) -> u64 {
    (((w >> 31u64) & 1) << 20u64) | (((w >> 12u64) & 0xff) << 12u64) | (((w >> 20u64) & 1)
        << 11u64) | (((w >> 21u64) & 0x3ff) << 1u64)
}

/// The displacement that a J-format word jumps by.
pub open spec fn jal_displacement(w: u64) -> int {
    let f = jal_imm_field(w) as int;
    if f >= 0x10_0000 { f - 0x20_0000 } else { f }
}

/// Destination register field of a 32-bit word.
pub open spec fn word_rd(w: u64) -> u64 {
    (w >> 7u64) & 0x1f
}

/// Major opcode field of a 32-bit word.
pub open spec fn word_opcode(w: u64) -> u64 {
    w & 0x7f
}

/// Two's-complement value of a 64-bit word.
pub open spec fn signed64(x: u64) -> int {
    if x >= 0x8000_0000_0000_0000 { x - 0x1_0000_0000_0000_0000 } else { x as int }
}

/// Whether `off` fits the JAL displacement field.
pub fn offset_is_encodable(off: u64) -> (r: bool)
    ensures
        r == offset_fits(off),
{
    let masked = off & OFFSET_MASK;
    masked == 0 || masked == OFFSET_NEGATIVE
}

/// Encodes `jal rd, off`.
pub fn encode_jal(rd: u8, off: u64) -> (r: u32)
    ensures
        r as u64 == jal_word(rd, off),
{
    let w: u64 = 0x6fu64 | ((rd as u64) << 7u64) | (((off >> 12u64) & 0xff) << 12u64) | (((off
        >> 11u64) & 1) << 20u64) | (((off >> 1u64) & 0x3ff) << 21u64) | (((off >> 20u64) & 1)
        << 31u64);
    assert(w < 0x1_0000_0000) by (bit_vector)
        requires
            w == 0x6fu64 | ((rd as u64) << 7u64) | (((off >> 12u64) & 0xff) << 12u64) | (((off
                >> 11u64) & 1) << 20u64) | (((off >> 1u64) & 0x3ff) << 21u64) | (((off
                >> 20u64) & 1) << 31u64),
            (rd as u64) < 256u64,
    ;
    w as u32
}

/// The range check accepts exactly the even displacements from -2^20 to
/// 2^20 - 2.
pub proof fn lemma_offset_fits_range(off: u64)
    ensures
        offset_fits(off) <==> (-0x10_0000 <= signed64(off) <= 0xF_FFFE && signed64(off) % 2 == 0),
{
    assert(((off & 0xFFFF_FFFF_FFF0_0001u64) == 0u64) <==> (off < 0x10_0000u64 && off & 1u64
        == 0u64)) by (bit_vector);
    assert(((off & 0xFFFF_FFFF_FFF0_0001u64) == 0xFFFF_FFFF_FFF0_0000u64) <==> (off
        >= 0xFFFF_FFFF_FFF0_0000u64 && off & 1u64 == 0u64)) by (bit_vector);
    assert((off & 1u64 == 0u64) <==> (off % 2 == 0)) by (bit_vector);
}

/// A displacement that fits comes back unchanged from the JAL encoding, with the
/// destination register and the JAL opcode in place.
pub proof fn lemma_jal_round_trip(rd: u8, off: u64)
    requires
        rd < 32,
        offset_fits(off),
    ensures
        jal_displacement(jal_word(rd, off)) == signed64(off),
        word_rd(jal_word(rd, off)) == rd as u64,
        word_opcode(jal_word(rd, off)) == 0x6f,
        jal_word(rd, off) < 0x1_0000_0000,
{
    let w = jal_word(rd, off);
    assert(word_rd(w) == rd as u64 && word_opcode(w) == 0x6f && w < 0x1_0000_0000) by (
    bit_vector)
        requires
            w == 0x6fu64 | ((rd as u64) << 7u64) | (((off >> 12u64) & 0xff) << 12u64) | (((off
                >> 11u64) & 1) << 20u64) | (((off >> 1u64) & 0x3ff) << 21u64) | (((off
                >> 20u64) & 1) << 31u64),
            rd < 32u8,
    ;
    let f = jal_imm_field(w);
    assert(f == off & 0x1F_FFFE) by (bit_vector)
        requires
            w == 0x6fu64 | ((rd as u64) << 7u64) | (((off >> 12u64) & 0xff) << 12u64) | (((off
                >> 11u64) & 1) << 20u64) | (((off >> 1u64) & 0x3ff) << 21u64) | (((off
                >> 20u64) & 1) << 31u64),
            f == (((w >> 31u64) & 1) << 20u64) | (((w >> 12u64) & 0xff) << 12u64) | (((w
                >> 20u64) & 1) << 11u64) | (((w >> 21u64) & 0x3ff) << 1u64),
            rd < 32u8,
    ;
    if (off & OFFSET_MASK) == 0 {
        assert(off & 0x1F_FFFE == off && off < 0x10_0000) by (bit_vector)
            requires
                off & 0xFFFF_FFFF_FFF0_0001u64 == 0u64,
        ;
    } else {
        assert(off & 0x1F_FFFE == off - 0xFFFF_FFFF_FFE0_0000u64 && off >= 0xFFFF_FFFF_FFF0_0000u64)
            by (bit_vector)
            requires
                off & 0xFFFF_FFFF_FFF0_0001u64 == 0xFFFF_FFFF_FFF0_0000u64,
        ;
    }
}

/// For a target `dest` and a jump at `at` whose distance is even and within
/// -2^20 .. 2^20 - 2, the wrapped difference passes the range check and the JAL
/// built from it jumps exactly that distance.
pub proof fn lemma_jump_to_target(rd: u8, dest: u64, at: u64)
    requires
        rd < 32,
        -0x10_0000 <= dest - at <= 0xF_FFFE,
        (dest - at) % 2 == 0,
    ensures
        offset_fits(dest.wrapping_sub(at)),
        jal_displacement(jal_word(rd, dest.wrapping_sub(at))) == dest - at,
        word_rd(jal_word(rd, dest.wrapping_sub(at))) == rd as u64,
{
    let off = dest.wrapping_sub(at);
    assert(signed64(off) == dest - at);
    lemma_offset_fits_range(off);
    lemma_jal_round_trip(rd, off);
}

} // verus!
