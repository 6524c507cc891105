//! The forward scan over each executable section of an ELF image.
use crate::decode::{decode_at, decode_instruction};
use crate::rewrite::{process_instruction, process_spec, PatchError};
use crate::scrub::{is_scrub_target, remove_a_instruction, scrub_spec};
use goblin::elf::Elf;
use vstd::prelude::*;

verus! {

/// Section flag of sections that hold executable instructions.
pub const SHF_EXECINSTR: u64 = 0x4;

/// Outcome of a scan: the new buffer and the positions scrubbed, in order.
pub type ScanResult = Result<(Seq<u8>, Seq<u64>), PatchError>;

/// `r` with `prefix` put in front of its list of scrubbed positions.
pub open spec fn after_scrubbed(prefix: Seq<u64>, r: ScanResult) -> ScanResult {
    match r {
        Ok((d, l)) => Ok((d, prefix + l)),
        Err(e) => Err(e),
    }
}

/// The scan of `d` from `pc` up to `end`: decode, rewrite a hazard or (when
/// `remove_a`) scrub an undecoded position, advance, until `end` or the end of
/// the buffer.
pub open spec fn scan_spec(d: Seq<u8>, pc: int, end: int, remove_a: bool) -> ScanResult
    decreases if pc < end { end - pc } else { 0 },
{
    if pc >= end || pc < 0 {
        Ok((d, seq![]))
    } else {
        let (inst, len) = decode_at(d, pc);
        if len == 0 {
            Ok((d, seq![]))
        } else {
            match inst {
                Some(i) => match process_spec(d, pc as u64, i, len, decode_at(d, pc + len)) {
                    Ok((d2, n)) => if n >= len {
                        scan_spec(d2, pc + n, end, remove_a)
                    } else {
                        Ok((d2, seq![]))
                    },
                    Err(e) => Err(e),
                },
                None => if remove_a && is_scrub_target(d, pc) {
                    after_scrubbed(seq![pc as u64], scan_spec(scrub_spec(d, pc), pc + len, end, remove_a))
                } else {
                    scan_spec(d, pc + len, end, remove_a)
                },
            }
        }
    }
}

proof fn lemma_scan_past_buffer(d: Seq<u8>, pc: int, end: int, remove_a: bool)
    requires
        pc >= d.len(),
    ensures
        scan_spec(d, pc, end, remove_a) == Ok::<(Seq<u8>, Seq<u64>), PatchError>((d, seq![])),
{
}

/// End of a section, saturated at the largest position.
pub open spec fn section_end(offset: u64, size: u64) -> int {
    if offset + size > u64::MAX { u64::MAX as int } else { offset + size }
}

/// Scans the executable sections among `headers` (flags, offset, size), in order.
pub open spec fn patch_spec(d: Seq<u8>, headers: Seq<(u64, u64, u64)>, remove_a: bool) -> ScanResult
    decreases headers.len(),
{
    if headers.len() == 0 {
        Ok((d, seq![]))
    } else {
        match patch_spec(d, headers.drop_last(), remove_a) {
            Ok((d1, l1)) => {
                let h = headers.last();
                if h.0 & SHF_EXECINSTR != 0 {
                    after_scrubbed(l1, scan_spec(d1, h.1 as int, section_end(h.1, h.2), remove_a))
                } else {
                    Ok((d1, l1))
                }
            },
            Err(e) => Err(e),
        }
    }
}

/// Scans `data` from `start` up to `end`, appending the scrubbed positions to
/// `scrubbed`.
pub fn scan_section(
    data: &mut Vec<u8>,
    start: u64,
    end: u64,
    remove_a: bool,
    scrubbed: &mut Vec<u64>,
) -> (r: Result<(), PatchError>)
    ensures
        match after_scrubbed(old(scrubbed)@, scan_spec(old(data)@, start as int, end as int, remove_a)) {
            Ok((d, l)) => r is Ok && final(data)@ == d && final(scrubbed)@ == l,
            Err(e) => r == Err::<(), PatchError>(e),
        },
        final(data)@.len() == old(data)@.len(),
{
    let ghost d0 = data@;
    let ghost s0 = scrubbed@;
    let mut pc: u64 = start;
    while pc < end
        invariant
            d0 == old(data)@,
            s0 == old(scrubbed)@,
            data@.len() == d0.len(),
            after_scrubbed(s0, scan_spec(d0, start as int, end as int, remove_a)) == after_scrubbed(
                scrubbed@,
                scan_spec(data@, pc as int, end as int, remove_a),
            ),
        decreases if pc < end { end - pc } else { 0 },
    {
        assert(data.len() <= u64::MAX);
        let (inst, len) = decode_instruction(data, pc);
        if len == 0 {
            assert(scrubbed@ + seq![] =~= scrubbed@);
            return Ok(());
        }
        match inst {
            Some(i) => {
                match process_instruction(data, pc, i, len) {
                    Ok(n) => {
                        pc = pc + n;
                    },
                    Err(e) => {
                        return Err(e);
                    },
                }
            },
            None => {
                if remove_a {
                    let ghost s1 = scrubbed@;
                    if remove_a_instruction(data, pc) {
                        scrubbed.push(pc);
                        let ghost rest = scan_spec(data@, pc + len, end as int, remove_a);
                        assert(after_scrubbed(s1, after_scrubbed(seq![pc], rest)) == after_scrubbed(
                            scrubbed@,
                            rest,
                        )) by {
                            if let Ok((d, l)) = rest {
                                assert(s1 + (seq![pc] + l) =~= scrubbed@ + l);
                            }
                        }
                    }
                }
                if len > data.len() as u64 - pc {
                    proof {
                        lemma_scan_past_buffer(data@, pc + len, end as int, remove_a);
                        assert(scrubbed@ + seq![] =~= scrubbed@);
                    }
                    return Ok(());
                }
                pc = pc + len;
            },
        }
    }
    assert(scrubbed@ + seq![] =~= scrubbed@);
    Ok(())
}

proof fn lemma_patch_failed_prefix(d: Seq<u8>, headers: Seq<(u64, u64, u64)>, j: int, remove_a: bool)
    requires
        0 <= j <= headers.len(),
        patch_spec(d, headers.take(j), remove_a) is Err,
    ensures
        patch_spec(d, headers, remove_a) == patch_spec(d, headers.take(j), remove_a),
    decreases headers.len(),
{
    if j == headers.len() {
        assert(headers.take(j) =~= headers);
    } else {
        assert(headers.drop_last().take(j) =~= headers.take(j));
        lemma_patch_failed_prefix(d, headers.drop_last(), j, remove_a);
    }
}

/// Scans every executable section among `headers` (flags, offset, size) in
/// order, rewriting hazards in place; returns the scrubbed positions in order.
/// The buffer keeps its length whatever happens.
pub fn patch_sections(data: &mut Vec<u8>, headers: &Vec<(u64, u64, u64)>, remove_a: bool) -> (r:
    Result<Vec<u64>, PatchError>)
    ensures
        match patch_spec(old(data)@, headers@, remove_a) {
            Ok((d, l)) => r is Ok && r->Ok_0@ == l && final(data)@ == d,
            Err(e) => r == Err::<Vec<u64>, PatchError>(e),
        },
        final(data)@.len() == old(data)@.len(),
{
    let ghost d0 = data@;
    let mut scrubbed: Vec<u64> = Vec::new();
    let mut k: usize = 0;
    assert(headers@.take(0) =~= seq![]);
    while k < headers.len()
        invariant
            d0 == old(data)@,
            k <= headers@.len(),
            data@.len() == d0.len(),
            patch_spec(d0, headers@.take(k as int), remove_a) == Ok::<
                (Seq<u8>, Seq<u64>),
                PatchError,
            >((data@, scrubbed@)),
        decreases headers.len() - k,
    {
        let (flags, offset, size) = headers[k];
        assert(headers@.take(k + 1).drop_last() =~= headers@.take(k as int));
        if flags & SHF_EXECINSTR != 0 {
            let end = if size > u64::MAX - offset {
                u64::MAX
            } else {
                offset + size
            };
            match scan_section(data, offset, end, remove_a, &mut scrubbed) {
                Ok(()) => {},
                Err(e) => {
                    proof {
                        lemma_patch_failed_prefix(d0, headers@, k + 1, remove_a);
                    }
                    return Err(e);
                },
            }
        }
        k = k + 1;
    }
    assert(headers@.take(k as int) =~= headers@);
    Ok(scrubbed)
}

/// The section headers (flags, offset, size) that goblin reads from an ELF image,
/// or nothing where it cannot parse one.
pub uninterp spec fn elf_section_headers(data: Seq<u8>) -> Option<Seq<(u64, u64, u64)>>;

/// Relies on goblin's `Elf::parse`: the section headers of the image, each as its
/// `sh_flags`, `sh_offset` and `sh_size`, or an error on a malformed image; the
/// outcome depends on the bytes alone.
#[verifier::external_body]
fn parse_section_headers(data: &Vec<u8>) -> (r: Option<Vec<(u64, u64, u64)>>)
    ensures
        match r {
            Some(v) => elf_section_headers(data@) == Some(v@),
            None => elf_section_headers(data@) is None,
        },
{
    match Elf::parse(data) {
        Ok(elf) => Some(elf.section_headers.iter().map(|h| (h.sh_flags, h.sh_offset, h.sh_size)).collect()),
        Err(_) => None,
    }
}

/// Patches an ELF image in place: every executable section is scanned and its
/// aliasing AUIPC/JALR pairs rewritten; returns the scrubbed positions. The
/// image keeps its length whatever happens.
pub fn patch_elf(data: &mut Vec<u8>, remove_a: bool) -> (r: Result<Vec<u64>, PatchError>)
    ensures
        match elf_section_headers(old(data)@) {
            None => r == Err::<Vec<u64>, PatchError>(PatchError::MalformedElf) && final(data)@
                == old(data)@,
            Some(headers) => match patch_spec(old(data)@, headers, remove_a) {
                Ok((d, l)) => r is Ok && r->Ok_0@ == l && final(data)@ == d,
                Err(e) => r == Err::<Vec<u64>, PatchError>(e),
            },
        },
        final(data)@.len() == old(data)@.len(),
{
    match parse_section_headers(data) {
        None => Err(PatchError::MalformedElf),
        Some(headers) => patch_sections(data, &headers, remove_a),
    }
}

} // verus!
