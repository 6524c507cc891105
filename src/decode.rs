//! Instruction decoding: width from the low bits of the first halfword, then the
//! compressed, base-integer and multiply/divide decoders of ckb-vm in turn.
use crate::bytes::{le16, le32, read_u16_le, read_u32_le};
use ckb_vm::instructions::{i, m, rvc, Itype, Utype};
use vstd::prelude::*;

verus! {

/// Decoder revision handed to ckb-vm: revision 0, the one under which an
/// aliasing JALR misbehaves.
pub const DECODER_VERSION: u32 = 0;

/// Opcode tag that ckb-vm gives AUIPC.
pub const OP_AUIPC: u16 = 0x9c;

/// Opcode tag that ckb-vm (decoder revision 0) gives JALR and C.JALR.
pub const OP_JALR: u16 = 0xa8;

/// What ckb-vm's compressed-instruction decoder makes of `bits`.
pub uninterp spec fn rvc_decoded(bits: u32, version: u32) -> Option<u64>;

/// What ckb-vm's base-integer decoder makes of `bits`.
pub uninterp spec fn i_decoded(bits: u32, version: u32) -> Option<u64>;

/// What ckb-vm's multiply/divide decoder makes of `bits`.
pub uninterp spec fn m_decoded(bits: u32, version: u32) -> Option<u64>;

/// Relies on ckb_vm::instructions::rvc::factory (64-bit registers): decodes a
/// compressed instruction; its result depends on the bits and revision alone.
#[verifier::external_body]
fn rvc_factory(bits: u32, version: u32) -> (r: Option<u64>)
    ensures
        r == rvc_decoded(bits, version),
{
    rvc::factory::<u64>(bits, version)
}

/// Relies on ckb_vm::instructions::i::factory (64-bit registers): decodes a
/// base-integer instruction; its result depends on the bits and revision alone.
#[verifier::external_body]
fn i_factory(bits: u32, version: u32) -> (r: Option<u64>)
    ensures
        r == i_decoded(bits, version),
{
    i::factory::<u64>(bits, version)
}

/// Relies on ckb_vm::instructions::m::factory (64-bit registers): decodes a
/// multiply/divide instruction; its result depends on the bits and revision alone.
#[verifier::external_body]
fn m_factory(bits: u32, version: u32) -> (r: Option<u64>)
    ensures
        r == m_decoded(bits, version),
{
    m::factory::<u64>(bits, version)
}

/// The first decoder that accepts `bits`, in the order compressed, base, multiply.
pub open spec fn decode_bits(bits: u32) -> Option<u64> {
    match rvc_decoded(bits, DECODER_VERSION) {
        Some(x) => Some(x),
        None => match i_decoded(bits, DECODER_VERSION) {
            Some(x) => Some(x),
            None => m_decoded(bits, DECODER_VERSION),
        },
    }
}

/// The instruction at `pc` and the number of bytes it spans. Past the end of the
/// buffer the width is 0; an instruction cut off by the end of the buffer is a
/// miss of its own width.
pub open spec fn decode_at(d: Seq<u8>, pc: int) -> (Option<u64>, u64) {
    if pc < 0 || pc >= d.len() {
        (None, 0)
    } else if pc + 2 > d.len() {
        (None, 2)
    } else if le16(d, pc) % 4 == 3 {
        if pc + 4 > d.len() {
            (None, 4)
        } else {
            (decode_bits(le32(d, pc) as u32), 4)
        }
    } else {
        (decode_bits(le16(d, pc) as u32), 2)
    }
}

/// Opcode tag of a decoded instruction.
pub open spec fn opcode_of(inst: u64) -> u16 {
    (((inst >> 8u64) & 0xff00) | (inst & 0xff)) as u16
}

/// Destination register of a decoded U-type or I-type instruction.
pub open spec fn rd_of(inst: u64) -> u8 {
    ((inst >> 8u64) & 0xff) as u8
}

/// First source register of a decoded I-type instruction.
pub open spec fn rs1_of(inst: u64) -> u8 {
    ((inst >> 32u64) & 0xff) as u8
}

/// Two's-complement value of the `w` low bits of `v`.
pub open spec fn signed_bits(v: int, w: nat) -> int {
    if v >= pow2(w) / 2 { v - pow2(w) } else { v }
}

/// Powers of two.
pub open spec fn pow2(w: nat) -> int
    decreases w,
{
    if w == 0 { 1 } else { 2 * pow2((w - 1) as nat) }
}

/// Immediate of a decoded U-type instruction.
pub open spec fn u_imm_of(inst: u64) -> int {
    signed_bits((inst >> 32u64) as int, 32)
}

/// Immediate of a decoded I-type instruction.
pub open spec fn i_imm_of(inst: u64) -> int {
    signed_bits((inst >> 40u64) as int, 24)
}

/// Relies on ckb_vm::instructions::extract_opcode: bits 0..8 and 16..24 of the
/// decoded value form the opcode tag.
pub assume_specification[ ckb_vm::instructions::extract_opcode ](i: u64) -> (r: u16)
    ensures
        r == opcode_of(i),
;

/// Relies on ckb_vm's `Utype::rd`: bits 8..16 of the decoded value.
#[verifier::external_body]
fn utype_rd(inst: u64) -> (r: usize)
    ensures
        r == rd_of(inst),
{
    Utype(inst).rd()
}

/// Relies on ckb_vm's `Utype::immediate_s`: bits 32..64, sign extended.
#[verifier::external_body]
fn utype_immediate(inst: u64) -> (r: i32)
    ensures
        r as int == u_imm_of(inst),
{
    Utype(inst).immediate_s()
}

/// Relies on ckb_vm's `Itype::rd`: bits 8..16 of the decoded value.
#[verifier::external_body]
fn itype_rd(inst: u64) -> (r: usize)
    ensures
        r == rd_of(inst),
{
    Itype(inst).rd()
}

/// Relies on ckb_vm's `Itype::rs1`: bits 32..40 of the decoded value.
#[verifier::external_body]
fn itype_rs1(inst: u64) -> (r: usize)
    ensures
        r == rs1_of(inst),
{
    Itype(inst).rs1()
}

/// Relies on ckb_vm's `Itype::immediate_s`: bits 40..64, sign extended.
#[verifier::external_body]
fn itype_immediate(inst: u64) -> (r: i32)
    ensures
        r as int == i_imm_of(inst),
{
    Itype(inst).immediate_s()
}

/// Fields of a decoded instruction that the rewriter reads.
pub struct Fields {
    pub opcode: u16,
    pub rd: u8,
    pub rs1: u8,
}

/// Reads opcode, destination and first source register of a decoded instruction.
pub fn fields_of(inst: u64) -> (r: Fields)
    ensures
        r.opcode == opcode_of(inst),
        r.rd == rd_of(inst),
        r.rs1 == rs1_of(inst),
{
    let opcode = ckb_vm::instructions::extract_opcode(inst);
    let rd = itype_rd(inst);
    let rs1 = itype_rs1(inst);
    Fields { opcode, rd: rd as u8, rs1: rs1 as u8 }
}

/// Destination register of a decoded AUIPC.
pub fn auipc_rd(inst: u64) -> (r: u8)
    ensures
        r == rd_of(inst),
{
    utype_rd(inst) as u8
}

/// Two's-complement bits of a sign-extended 32-bit value, as a 64-bit word.
pub open spec fn as_word(x: int) -> u64 {
    if x < 0 { (x + 0x1_0000_0000_0000_0000) as u64 } else { x as u64 }
}

fn sign_extend(x: i32) -> (r: u64)
    ensures
        r == as_word(x as int),
{
    if x >= 0 {
        x as u64
    } else {
        let m: u64 = (-(x as i64) - 1) as u64;
        u64::MAX - m
    }
}

/// AUIPC immediate of a decoded instruction, as a 64-bit addend.
pub fn u_immediate_word(inst: u64) -> (r: u64)
    ensures
        r == as_word(u_imm_of(inst)),
{
    sign_extend(utype_immediate(inst))
}

/// JALR immediate of a decoded instruction, as a 64-bit addend.
pub fn i_immediate_word(inst: u64) -> (r: u64)
    ensures
        r == as_word(i_imm_of(inst)),
{
    sign_extend(itype_immediate(inst))
}

fn decode_word(bits: u32) -> (r: Option<u64>)
    ensures
        r == decode_bits(bits),
{
    if let Some(x) = rvc_factory(bits, DECODER_VERSION) {
        return Some(x);
    }
    if let Some(x) = i_factory(bits, DECODER_VERSION) {
        return Some(x);
    }
    m_factory(bits, DECODER_VERSION)
}

/// Decodes the instruction at `pc`: the decoded value, if any decoder accepts
/// it, and the width to advance by (0 past the end of the buffer).
pub fn decode_instruction(data: &Vec<u8>, pc: u64) -> (r: (Option<u64>, u64))
    ensures
        r == decode_at(data@, pc as int),
{
    if pc >= data.len() as u64 {
        return (None, 0);
    }
    let p = pc as usize;
    if data.len() - p < 2 {
        return (None, 2);
    }
    let h = read_u16_le(data, p);
    if h % 4 == 3 {
        if data.len() - p < 4 {
            return (None, 4);
        }
        let w = read_u32_le(data, p);
        (decode_word(w), 4)
    } else {
        (decode_word(h as u32), 2)
    }
}

} // verus!
