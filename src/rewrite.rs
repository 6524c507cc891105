//! Hazard detection and rewriting of AUIPC/JALR pairs whose registers alias.
use crate::bytes::{put16, put32, write_u16_le, write_u32_le};
use crate::decode::{
    as_word, auipc_rd, decode_at, decode_instruction, fields_of, i_immediate_word, i_imm_of,
    opcode_of, rd_of, rs1_of, u_immediate_word, u_imm_of, OP_AUIPC, OP_JALR,
};
use crate::encode::{
    encode_jal, jal_displacement, jal_word, lemma_jal_round_trip, lemma_offset_fits_range,
    offset_fits, offset_is_encodable, signed64, word_opcode, C_J_BACK_4, NOP_WORD,
};
use vstd::prelude::*;

verus! {

/// Why a buffer cannot be patched safely.
#[derive(Debug, Clone, Copy, PartialEq, Eq, Structural)]
pub enum PatchError {
    /// The distance to the pair's target does not fit a direct jump.
    InvalidOffset { offset: u64 },
    /// A JALR whose source is its own non-zero destination, with no AUIPC pair
    /// that could be rewritten around it.
    ResidualHazard { instruction: u64, pc: u64 },
    /// The buffer is not an ELF image.
    MalformedElf,
}

/// Whether `inst` is an AUIPC of width `len`.
pub open spec fn is_auipc(inst: u64, len: u64) -> bool {
    opcode_of(inst) == OP_AUIPC && len == 4
}

/// Whether the lookahead is a 4-byte JALR with source equal to destination equal
/// to `rd`.
pub open spec fn is_aliasing_jalr(next: (Option<u64>, u64), rd: u8) -> bool {
    &&& next.0 is Some
    &&& next.1 == 4
    &&& opcode_of(next.0->Some_0) == OP_JALR
    &&& rs1_of(next.0->Some_0) == rd_of(next.0->Some_0)
    &&& rs1_of(next.0->Some_0) == rd
}

/// Whether the lookahead is a C.JALR through the link register and `rd` is the
/// link register.
pub open spec fn is_aliasing_c_jalr(next: (Option<u64>, u64), rd: u8) -> bool {
    &&& next.0 is Some
    &&& next.1 == 2
    &&& opcode_of(next.0->Some_0) == OP_JALR
    &&& rs1_of(next.0->Some_0) == rd_of(next.0->Some_0)
    &&& rs1_of(next.0->Some_0) == 1
    &&& rs1_of(next.0->Some_0) == rd
}

/// Whether `inst` is a JALR whose source is its own non-zero destination.
pub open spec fn is_residual_hazard(inst: u64) -> bool {
    opcode_of(inst) == OP_JALR && rs1_of(inst) == rd_of(inst) && rd_of(inst) != 0
}

/// Displacement from the JALR at `pc + len` to the target of the AUIPC at `pc`
/// plus the JALR's own immediate.
pub open spec fn pair_offset(pc: u64, len: u64, auipc: u64, jalr: u64) -> u64 {
    pc.wrapping_add(as_word(u_imm_of(auipc))).wrapping_add(as_word(i_imm_of(jalr))).wrapping_sub(
        (pc + len) as u64,
    )
}

/// Displacement from the C.JALR at `pc + len` to the target of the AUIPC at `pc`.
pub open spec fn compressed_pair_offset(pc: u64, len: u64, auipc: u64) -> u64 {
    pc.wrapping_add(as_word(u_imm_of(auipc))).wrapping_sub((pc + len) as u64)
}

/// What handling the instruction `inst` of width `len` at `pc`, with `next` the
/// decoding that follows it, does: the new buffer and the bytes consumed, or the
/// error that stops the run.
pub open spec fn process_spec(
    d: Seq<u8>,
    pc: u64,
    inst: u64,
    len: u64,
    next: (Option<u64>, u64),
) -> Result<(Seq<u8>, u64), PatchError> {
    let next_pc = pc + len;
    if is_auipc(inst, len) && is_aliasing_jalr(next, rd_of(inst)) {
        let off = pair_offset(pc, len, inst, next.0->Some_0);
        if offset_fits(off) {
            Ok(
                (
                    put32(put32(d, pc as int, NOP_WORD), next_pc, jal_word(rd_of(inst), off) as u32),
                    (len + next.1) as u64,
                ),
            )
        } else {
            Err(PatchError::InvalidOffset { offset: off })
        }
    } else if is_auipc(inst, len) && is_aliasing_c_jalr(next, rd_of(inst)) {
        let off = compressed_pair_offset(pc, len, inst);
        if offset_fits(off) {
            Ok(
                (
                    put16(put32(d, pc as int, jal_word(rd_of(inst), off) as u32), next_pc, C_J_BACK_4),
                    (len + next.1) as u64,
                ),
            )
        } else {
            Err(PatchError::InvalidOffset { offset: off })
        }
    } else if is_residual_hazard(inst) {
        Err(PatchError::ResidualHazard { instruction: inst, pc })
    } else {
        Ok((d, len))
    }
}

/// Handles the instruction `inst` of width `len` at `pc`, given the decoding
/// `next` of what follows it: rewrites an aliasing AUIPC/JALR or AUIPC/C.JALR
/// pair in place and returns the bytes consumed, or reports a hazard that cannot
/// be rewritten. On an error the buffer is left as it was.
pub fn process_with_lookahead(
    data: &mut Vec<u8>,
    pc: u64,
    inst: u64,
    len: u64,
    next: (Option<u64>, u64),
) -> (r: Result<u64, PatchError>)
    requires
        pc + len <= old(data)@.len(),
        next.0 is Some ==> pc + len + next.1 <= old(data)@.len(),
    ensures
        match process_spec(old(data)@, pc, inst, len, next) {
            Ok((d, n)) => r == Ok::<u64, PatchError>(n) && final(data)@ == d,
            Err(e) => r == Err::<u64, PatchError>(e) && final(data)@ == old(data)@,
        },
        r is Ok ==> r->Ok_0 >= len,
        final(data)@.len() == old(data)@.len(),
{
    assert(data.len() <= u64::MAX);
    let next_pc = pc + len;
    let f = fields_of(inst);
    if f.opcode == OP_AUIPC && len == 4 {
        let rd_a = auipc_rd(inst);
        if let Some(n) = next.0 {
            let g = fields_of(n);
            if g.opcode == OP_JALR && g.rs1 == g.rd {
                if next.1 == 4 && g.rs1 == rd_a {
                    let off = pc.wrapping_add(u_immediate_word(inst)).wrapping_add(
                        i_immediate_word(n),
                    ).wrapping_sub(next_pc);
                    if !offset_is_encodable(off) {
                        return Err(PatchError::InvalidOffset { offset: off });
                    }
                    let jal = encode_jal(rd_a, off);
                    write_u32_le(data, pc as usize, NOP_WORD);
                    write_u32_le(data, next_pc as usize, jal);
                    return Ok(len + next.1);
                }
                if next.1 == 2 && g.rs1 == 1 && g.rs1 == rd_a {
                    let off = pc.wrapping_add(u_immediate_word(inst)).wrapping_sub(next_pc);
                    if !offset_is_encodable(off) {
                        return Err(PatchError::InvalidOffset { offset: off });
                    }
                    let jal = encode_jal(rd_a, off);
                    write_u32_le(data, pc as usize, jal);
                    write_u16_le(data, next_pc as usize, C_J_BACK_4);
                    return Ok(len + next.1);
                }
            }
        }
    }
    if f.opcode == OP_JALR && f.rs1 == f.rd && f.rd != 0 {
        return Err(PatchError::ResidualHazard { instruction: inst, pc });
    }
    Ok(len)
}

/// Handles the instruction `inst` of width `len` at `pc`, decoding the
/// instruction after it as the lookahead.
pub fn process_instruction(data: &mut Vec<u8>, pc: u64, inst: u64, len: u64) -> (r: Result<
    u64,
    PatchError,
>)
    requires
        pc + len <= old(data)@.len(),
    ensures
        match process_spec(old(data)@, pc, inst, len, decode_at(old(data)@, pc + len)) {
            Ok((d, n)) => r == Ok::<u64, PatchError>(n) && final(data)@ == d,
            Err(e) => r == Err::<u64, PatchError>(e) && final(data)@ == old(data)@,
        },
        r is Ok ==> r->Ok_0 >= len,
        final(data)@.len() == old(data)@.len(),
{
    assert(data.len() <= u64::MAX);
    let next = decode_instruction(data, pc + len);
    process_with_lookahead(data, pc, inst, len, next)
}

/// An aliasing AUIPC/JALR pair whose target lies an even distance of -2^20 to
/// 2^20 - 2 bytes from the JALR is rewritten to a no-op followed by a JAL from
/// the JALR's address that jumps exactly that distance, with the AUIPC's
/// destination register.
pub proof fn lemma_pair_jumps_to_target(
    d: Seq<u8>,
    pc: u64,
    inst: u64,
    len: u64,
    next: (Option<u64>, u64),
)
    requires
        is_auipc(inst, len),
        is_aliasing_jalr(next, rd_of(inst)),
        rd_of(inst) < 32,
        -0x10_0000 <= u_imm_of(inst) + i_imm_of(next.0->Some_0) - len <= 0xF_FFFE,
        (u_imm_of(inst) + i_imm_of(next.0->Some_0) - len) % 2 == 0,
        pc + len <= u64::MAX,
    ensures
        ({
            let off = pair_offset(pc, len, inst, next.0->Some_0);
            &&& process_spec(d, pc, inst, len, next) == Ok::<(Seq<u8>, u64), PatchError>(
                (
                    put32(put32(d, pc as int, NOP_WORD), pc + len, jal_word(rd_of(inst), off) as u32),
                    8,
                ),
            )
            &&& jal_displacement(jal_word(rd_of(inst), off)) == (pc + u_imm_of(inst) + i_imm_of(
                next.0->Some_0,
            )) - (pc + len)
            &&& word_opcode(jal_word(rd_of(inst), off)) == 0x6f
        }),
{
    let n = next.0->Some_0;
    lemma_imm_ranges(inst, n);
    let off = pair_offset(pc, len, inst, n);
    assert(signed64(off) == u_imm_of(inst) + i_imm_of(n) - len);
    lemma_offset_fits_range(off);
    lemma_jal_round_trip(rd_of(inst), off);
}

proof fn lemma_imm_ranges(a: u64, j: u64)
    ensures
        -0x8000_0000 <= u_imm_of(a) < 0x8000_0000,
        -0x80_0000 <= i_imm_of(j) < 0x80_0000,
{
    assert((a >> 32u64) < 0x1_0000_0000) by (bit_vector);
    assert((j >> 40u64) < 0x100_0000) by (bit_vector);
    reveal_with_fuel(crate::decode::pow2, 33);
}

/// The words that a rewrite leaves behind are no AUIPC: a JAL, the canonical
/// no-op, and a compressed jump; so a second pass finds no AUIPC where the
/// first rewrote one.
pub proof fn lemma_rewrite_leaves_no_auipc(rd: u8, off: u64)
    requires
        rd < 32,
    ensures
        word_opcode(jal_word(rd, off)) == 0x6f,
        word_opcode(NOP_WORD as u64) == 0x13,
        C_J_BACK_4 % 4 != 3,
{
    assert((0x6fu64 | ((rd as u64) << 7u64) | (((off >> 12u64) & 0xff) << 12u64) | (((off
        >> 11u64) & 1) << 20u64) | (((off >> 1u64) & 0x3ff) << 21u64) | (((off >> 20u64) & 1)
        << 31u64)) & 0x7f == 0x6f) by (bit_vector);
    assert(0x13u64 & 0x7f == 0x13) by (bit_vector);
}

} // verus!
