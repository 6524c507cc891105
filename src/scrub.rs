//! Optional removal of two acquire-ordered atomic instructions.
use vstd::prelude::*;

verus! {

/// Whether the four bytes at `pc` are `amoadd.w.aq a5,a4,(a3)` or
/// `amoswap.d.aq a4,a4,(a5)`.
pub open spec fn is_scrub_target(d: Seq<u8>, pc: int) -> bool {
    &&& 0 <= pc
    &&& pc + 4 <= d.len()
    &&& {
        ||| d[pc] == 0xaf && d[pc + 1] == 0xa7 && d[pc + 2] == 0xe6 && d[pc + 3] == 0x04
        ||| d[pc] == 0x2f && d[pc + 1] == 0xb7 && d[pc + 2] == 0xe7 && d[pc + 3] == 0x0c
    }
}

/// The buffer after scrubbing at `pc`: a target becomes `lb a0,-1(zero)`
/// (`03 05 f0 ff`); anything else is left alone.
pub open spec fn scrub_spec(d: Seq<u8>, pc: int) -> Seq<u8> {
    if is_scrub_target(d, pc) {
        d.update(pc, 0x03).update(pc + 1, 0x05).update(pc + 2, 0xf0).update(pc + 3, 0xff)
    } else {
        d
    }
}

/// Replaces one of the two atomic instructions at `pc` by a load byte; returns
/// whether it did.
pub fn remove_a_instruction(data: &mut Vec<u8>, pc: u64) -> (r: bool)
    ensures
        r == is_scrub_target(old(data)@, pc as int),
        final(data)@ == scrub_spec(old(data)@, pc as int),
        final(data)@.len() == old(data)@.len(),
{
    if pc >= data.len() as u64 || data.len() as u64 - pc < 4 {
        return false;
    }
    let p = pc as usize;
    let hit = (data[p] == 0xaf && data[p + 1] == 0xa7 && data[p + 2] == 0xe6 && data[p + 3]
        == 0x04) || (data[p] == 0x2f && data[p + 1] == 0xb7 && data[p + 2] == 0xe7 && data[p
        + 3] == 0x0c);
    if hit {
        data.set(p, 0x03);
        data.set(p + 1, 0x05);
        data.set(p + 2, 0xf0);
        data.set(p + 3, 0xff);
    }
    hit
}

/// Scrubbing a position twice leaves the same bytes as scrubbing it once.
pub proof fn lemma_scrub_idempotent(d: Seq<u8>, pc: int)
    ensures
        scrub_spec(scrub_spec(d, pc), pc) == scrub_spec(d, pc),
        !is_scrub_target(scrub_spec(d, pc), pc) || !is_scrub_target(d, pc),
{
}

} // verus!
