use ckb_binary_patcher::decode::{
    auipc_rd, decode_instruction, fields_of, i_immediate_word, u_immediate_word, DECODER_VERSION,
    OP_AUIPC, OP_JALR,
};
use ckb_binary_patcher::encode::{encode_jal, offset_is_encodable, C_J_BACK_4, NOP_WORD};
use ckb_binary_patcher::rewrite::{process_instruction, process_with_lookahead, PatchError};
use ckb_binary_patcher::scan::{patch_elf, patch_sections, scan_section, SHF_EXECINSTR};
use ckb_binary_patcher::scrub::remove_a_instruction;
use ckb_vm::instructions::insts;

fn put(buf: &mut Vec<u8>, at: usize, word: u32) {
    buf[at..at + 4].copy_from_slice(&word.to_le_bytes());
}

fn word_at(buf: &[u8], at: usize) -> u32 {
    u32::from_le_bytes([buf[at], buf[at + 1], buf[at + 2], buf[at + 3]])
}

fn auipc(rd: u32, imm: u32) -> u32 {
    (imm & 0xffff_f000) | (rd << 7) | 0x17
}

fn jalr(rd: u32, rs1: u32, imm: i32) -> u32 {
    (((imm as u32) & 0xfff) << 20) | (rs1 << 15) | (rd << 7) | 0x67
}

fn jal_displacement(w: u32) -> i64 {
    let f = (((w >> 31) & 1) << 20) | (((w >> 12) & 0xff) << 12) | (((w >> 20) & 1) << 11)
        | (((w >> 21) & 0x3ff) << 1);
    if f >= 0x10_0000 {
        f as i64 - 0x20_0000
    } else {
        f as i64
    }
}

fn whole(buf: &Vec<u8>) -> Vec<(u64, u64, u64)> {
    vec![(SHF_EXECINSTR, 0, buf.len() as u64)]
}

/// A buffer of NOPs with an AUIPC at `at` followed by a JALR.
fn pair_buffer(at: usize, rd: u32, auipc_imm: u32, jalr_imm: i32) -> Vec<u8> {
    let mut buf = Vec::new();
    for _ in 0..0x100 {
        buf.extend_from_slice(&NOP_WORD.to_le_bytes());
    }
    put(&mut buf, at, auipc(rd, auipc_imm));
    put(&mut buf, at + 4, jalr(rd, rd, jalr_imm));
    buf
}

#[test]
fn opcode_tags_match_ckb_vm() {
    assert_eq!(OP_AUIPC, insts::OP_AUIPC);
    assert_eq!(OP_JALR, insts::OP_JALR_VERSION0);
    assert_eq!(DECODER_VERSION, ckb_vm::machine::VERSION0);
    assert_eq!(SHF_EXECINSTR, u64::from(goblin::elf::section_header::SHF_EXECINSTR));
}

#[test]
fn decode_widths() {
    let buf = vec![0x13, 0x00, 0x00, 0x00, 0x82, 0x90, 0x13];
    let (i, len) = decode_instruction(&buf, 0);
    assert_eq!(len, 4);
    assert_eq!(fields_of(i.unwrap()).opcode, insts::OP_ADDI);
    let (j, len) = decode_instruction(&buf, 4);
    assert_eq!(len, 2);
    let f = fields_of(j.unwrap());
    assert_eq!((f.opcode, f.rd, f.rs1), (OP_JALR, 1, 1));
    assert_eq!(decode_instruction(&buf, 6), (None, 2));
    assert_eq!(decode_instruction(&buf, 7), (None, 0));
    assert_eq!(decode_instruction(&buf, 100), (None, 0));
}

#[test]
fn auipc_jalr_pair_is_rewritten() {
    let mut buf = pair_buffer(0x100, 5, 0x1000, 0x20);
    let len = buf.len();
    let headers = whole(&buf);
    let r = patch_sections(&mut buf, &headers, false);
    assert_eq!(r, Ok(vec![]));
    assert_eq!(buf.len(), len);
    assert_eq!(word_at(&buf, 0x100), 0x0000_0013);
    let w = word_at(&buf, 0x104);
    assert_eq!(w, 0x01C0_12EF);
    assert_eq!(w & 0x7f, 0x6f);
    assert_eq!((w >> 7) & 0x1f, 5);
    assert_eq!(jal_displacement(w), 0x101c);
}

#[test]
fn auipc_compressed_jalr_pair_is_rewritten() {
    let mut buf = pair_buffer(0x100, 1, 0x1000, 0);
    buf[0x104] = 0x82;
    buf[0x105] = 0x90;
    buf[0x106] = 0x01;
    buf[0x107] = 0x00;
    let headers = whole(&buf);
    let r = patch_sections(&mut buf, &headers, false);
    assert_eq!(r, Ok(vec![]));
    let w = word_at(&buf, 0x100);
    assert_eq!(w, 0x7FD0_00EF);
    assert_eq!(jal_displacement(w), 0x1100 - 0x104);
    assert_eq!(&buf[0x104..0x106], &C_J_BACK_4.to_le_bytes());
    assert_eq!(&buf[0x104..0x106], &[0xf5, 0xbf]);
    assert_eq!(&buf[0x106..0x108], &[0x01, 0x00]);
}

#[test]
fn compressed_jalr_through_other_register_is_not_rewritten() {
    let mut buf = pair_buffer(0x100, 5, 0x1000, 0);
    buf[0x104] = 0x82;
    buf[0x105] = 0x82;
    buf[0x106] = 0x01;
    buf[0x107] = 0x00;
    let before = buf.clone();
    let r = patch_sections(&mut buf, &whole(&before), false);
    assert_eq!(r, Ok(vec![]));
    assert_eq!(buf, before);
}

#[test]
fn standalone_aliasing_jalr_aborts() {
    let mut buf = vec![0x13, 0, 0, 0, 0, 0, 0, 0];
    put(&mut buf, 4, jalr(5, 5, 0));
    let inst = decode_instruction(&buf, 4).0.unwrap();
    let before = buf.clone();
    let r = patch_sections(&mut buf, &whole(&before), false);
    assert_eq!(r, Err(PatchError::ResidualHazard { instruction: inst, pc: 4 }));
    assert_eq!(buf, before);
}

#[test]
fn standalone_compressed_jalr_through_link_register_aborts() {
    let mut buf = vec![0x82, 0x90];
    let inst = decode_instruction(&buf, 0).0.unwrap();
    let r = process_instruction(&mut buf, 0, inst, 2);
    assert_eq!(r, Err(PatchError::ResidualHazard { instruction: inst, pc: 0 }));
}

#[test]
fn jalr_through_zero_is_no_hazard() {
    let mut buf = vec![0; 4];
    put(&mut buf, 0, jalr(0, 0, 0));
    let before = buf.clone();
    assert_eq!(patch_sections(&mut buf, &whole(&before), false), Ok(vec![]));
    assert_eq!(buf, before);
}

#[test]
fn atomic_left_alone_without_scrub() {
    let mut buf = vec![0x13, 0, 0, 0, 0xaf, 0xa7, 0xe6, 0x04, 0x13, 0, 0, 0];
    let before = buf.clone();
    assert_eq!(patch_sections(&mut buf, &whole(&before), false), Ok(vec![]));
    assert_eq!(buf, before);
}

#[test]
fn atomic_scrubbed_when_enabled() {
    let mut buf = vec![0x13, 0, 0, 0, 0xaf, 0xa7, 0xe6, 0x04, 0x2f, 0xb7, 0xe7, 0x0c];
    let headers = whole(&buf);
    let r = patch_sections(&mut buf, &headers, true);
    assert_eq!(r, Ok(vec![4, 8]));
    assert_eq!(&buf[4..8], &[0x03, 0x05, 0xf0, 0xff]);
    assert_eq!(&buf[8..12], &[0x03, 0x05, 0xf0, 0xff]);
}

#[test]
fn scrub_ignores_other_bytes_and_short_tails() {
    let mut buf = vec![0xaf, 0xa7, 0xe6, 0x05, 0xaf, 0xa7, 0xe6];
    assert!(!remove_a_instruction(&mut buf, 0));
    assert!(!remove_a_instruction(&mut buf, 4));
    assert!(!remove_a_instruction(&mut buf, 40));
    assert_eq!(buf, vec![0xaf, 0xa7, 0xe6, 0x05, 0xaf, 0xa7, 0xe6]);
}

#[test]
fn patching_twice_changes_nothing_more() {
    let mut buf = pair_buffer(0x100, 5, 0x1000, 0x20);
    put(&mut buf, 0x200, auipc(1, 0x2000));
    buf[0x204] = 0x82;
    buf[0x205] = 0x90;
    buf[0x206] = 0x01;
    buf[0x207] = 0x00;
    let headers = whole(&buf);
    assert_eq!(patch_sections(&mut buf, &headers, true), Ok(vec![]));
    let once = buf.clone();
    assert_ne!(once, pair_buffer(0x100, 5, 0x1000, 0x20));
    assert_eq!(patch_sections(&mut buf, &headers, true), Ok(vec![]));
    assert_eq!(buf, once);
}

#[test]
fn largest_forward_offset_is_accepted() {
    let mut buf = pair_buffer(0, 5, 0x10_0000, 2);
    let headers = whole(&buf);
    let r = patch_sections(&mut buf, &headers, false);
    assert_eq!(r, Ok(vec![]));
    assert_eq!(jal_displacement(word_at(&buf, 4)), 0xF_FFFE);
}

#[test]
fn forward_offset_beyond_range_aborts() {
    let mut buf = pair_buffer(0, 5, 0x10_0000, 4);
    let headers = whole(&buf);
    let r = patch_sections(&mut buf, &headers, false);
    assert_eq!(r, Err(PatchError::InvalidOffset { offset: 0x10_0000 }));
}

#[test]
fn largest_backward_offset_is_accepted() {
    let mut buf = pair_buffer(0, 5, 0xFFF0_0000, 4);
    let headers = whole(&buf);
    let r = patch_sections(&mut buf, &headers, false);
    assert_eq!(r, Ok(vec![]));
    assert_eq!(jal_displacement(word_at(&buf, 4)), -0x10_0000);
}

#[test]
fn backward_offset_beyond_range_aborts() {
    let mut buf = pair_buffer(0, 5, 0xFFF0_0000, 2);
    let headers = whole(&buf);
    let r = patch_sections(&mut buf, &headers, false);
    assert_eq!(r, Err(PatchError::InvalidOffset { offset: (-0x10_0002i64) as u64 }));
}

#[test]
fn odd_offset_aborts() {
    let mut buf = pair_buffer(0, 5, 0x1000, 1);
    let headers = whole(&buf);
    let r = patch_sections(&mut buf, &headers, false);
    assert_eq!(r, Err(PatchError::InvalidOffset { offset: 0xFFD }));
}

#[test]
fn offset_range_check() {
    assert!(offset_is_encodable(0));
    assert!(offset_is_encodable(0xF_FFFE));
    assert!(!offset_is_encodable(0x10_0000));
    assert!(!offset_is_encodable(3));
    assert!(offset_is_encodable((-0x10_0000i64) as u64));
    assert!(!offset_is_encodable((-0x10_0002i64) as u64));
}

#[test]
fn jal_round_trip() {
    for off in [0i64, 2, 0x7fe, 0x800, 0x101c, 0xF_FFFE, -2, -0x800, -0x10_0000] {
        let w = encode_jal(7, off as u64);
        assert_eq!(jal_displacement(w), off);
        assert_eq!((w >> 7) & 0x1f, 7);
        assert_eq!(w & 0x7f, 0x6f);
    }
}

#[test]
fn lookahead_decides_the_pair() {
    let mut buf = pair_buffer(0, 5, 0x1000, 0x20);
    let (a, la) = decode_instruction(&buf, 0);
    let before = buf.clone();
    let r = process_with_lookahead(&mut buf, 0, a.unwrap(), la, (None, 4));
    assert_eq!(r, Ok(4));
    assert_eq!(buf, before);
    let next = decode_instruction(&buf, 4);
    let r = process_with_lookahead(&mut buf, 0, a.unwrap(), la, next);
    assert_eq!(r, Ok(8));
    assert_eq!(word_at(&buf, 0), NOP_WORD);
}

#[test]
fn only_executable_sections_are_scanned() {
    let mut buf = pair_buffer(0x100, 5, 0x1000, 0x20);
    let before = buf.clone();
    let r = patch_sections(&mut buf, &vec![(0x2, 0, before.len() as u64)], false);
    assert_eq!(r, Ok(vec![]));
    assert_eq!(buf, before);
    let r = patch_sections(&mut buf, &vec![(0x6, 0x100, 8)], false);
    assert_eq!(r, Ok(vec![]));
    assert_eq!(word_at(&buf, 0x100), NOP_WORD);
}

#[test]
fn section_past_buffer_end_stops_at_end() {
    let mut buf = vec![0x13, 0, 0, 0, 0x13];
    let mut scrubbed = Vec::new();
    assert_eq!(scan_section(&mut buf, 0, u64::MAX, true, &mut scrubbed), Ok(()));
    assert!(scrubbed.is_empty());
}

#[test]
fn non_elf_input_is_rejected() {
    let mut buf = vec![1, 2, 3, 4, 5, 6, 7, 8];
    assert_eq!(patch_elf(&mut buf, false), Err(PatchError::MalformedElf));
    assert_eq!(buf, vec![1, 2, 3, 4, 5, 6, 7, 8]);
}

#[test]
fn immediates_are_sign_extended() {
    let mut buf = vec![0; 8];
    put(&mut buf, 0, auipc(5, 0xFFF0_0000));
    put(&mut buf, 4, jalr(6, 7, -4));
    let a = decode_instruction(&buf, 0).0.unwrap();
    let j = decode_instruction(&buf, 4).0.unwrap();
    assert_eq!(fields_of(a).opcode, OP_AUIPC);
    assert_eq!(auipc_rd(a), 5);
    assert_eq!(u_immediate_word(a), (-0x10_0000i64) as u64);
    let f = fields_of(j);
    assert_eq!((f.opcode, f.rd, f.rs1), (OP_JALR, 6, 7));
    assert_eq!(i_immediate_word(j), (-4i64) as u64);
    put(&mut buf, 0, auipc(5, 0x7FFF_F000));
    let a = decode_instruction(&buf, 0).0.unwrap();
    assert_eq!(u_immediate_word(a), 0x7FFF_F000);
}

fn le16(v: u16) -> [u8; 2] {
    v.to_le_bytes()
}

/// A minimal 64-bit RISC-V ELF image: header, eight bytes of code at 0x40, then
/// a null section header and one for the code with the given flags.
fn tiny_elf(code_flags: u64) -> Vec<u8> {
    let mut b = vec![0x7f, b'E', b'L', b'F', 2, 1, 1, 0, 0, 0, 0, 0, 0, 0, 0, 0];
    b.extend_from_slice(&le16(2));
    b.extend_from_slice(&le16(0xf3));
    b.extend_from_slice(&1u32.to_le_bytes());
    b.extend_from_slice(&0u64.to_le_bytes());
    b.extend_from_slice(&0u64.to_le_bytes());
    b.extend_from_slice(&0x48u64.to_le_bytes());
    b.extend_from_slice(&0u32.to_le_bytes());
    b.extend_from_slice(&le16(64));
    b.extend_from_slice(&le16(56));
    b.extend_from_slice(&le16(0));
    b.extend_from_slice(&le16(64));
    b.extend_from_slice(&le16(2));
    b.extend_from_slice(&le16(0));
    assert_eq!(b.len(), 0x40);
    b.extend_from_slice(&auipc(5, 0x1000).to_le_bytes());
    b.extend_from_slice(&jalr(5, 5, 0x20).to_le_bytes());
    b.extend_from_slice(&[0; 64]);
    b.extend_from_slice(&0u32.to_le_bytes());
    b.extend_from_slice(&1u32.to_le_bytes());
    b.extend_from_slice(&code_flags.to_le_bytes());
    b.extend_from_slice(&0u64.to_le_bytes());
    b.extend_from_slice(&0x40u64.to_le_bytes());
    b.extend_from_slice(&8u64.to_le_bytes());
    b.extend_from_slice(&0u32.to_le_bytes());
    b.extend_from_slice(&0u32.to_le_bytes());
    b.extend_from_slice(&4u64.to_le_bytes());
    b.extend_from_slice(&0u64.to_le_bytes());
    b
}

#[test]
fn elf_image_executable_section_is_patched() {
    let mut buf = tiny_elf(0x6);
    let len = buf.len();
    assert_eq!(patch_elf(&mut buf, false), Ok(vec![]));
    assert_eq!(buf.len(), len);
    assert_eq!(word_at(&buf, 0x40), NOP_WORD);
    assert_eq!(jal_displacement(word_at(&buf, 0x44)), 0x101c);
}

#[test]
fn elf_image_data_section_is_left_alone() {
    let mut buf = tiny_elf(0x2);
    let before = buf.clone();
    assert_eq!(patch_elf(&mut buf, false), Ok(vec![]));
    assert_eq!(buf, before);
}
