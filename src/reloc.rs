//! Relocation patching: each relocation site of an emitted code buffer is a
//! placeholder line that is replaced by the call or trap text it stands for.
use vstd::prelude::*;
use vstd::string::StringSliceAdditionalSpecFns;
use crate::text::{decimal, push_decimal, push_range, push_str};

verus! {

/// What a relocation refers to.
#[derive(Clone, Copy, Debug, PartialEq, Eq, Structural)]
pub enum RelocTarget {
    /// An invalid function pointer: reaching the site must abort.
    Trap,
    /// A call of the function with this index.
    Call(u32),
    /// A target that could not be classified; it must never reach a program.
    Unresolved,
}

impl RelocTarget {
    /// Classifies a user function index: index `0` is the trap sentinel.
    pub fn from_user_index(index: u32) -> (r: RelocTarget)
        ensures
            index == 0 ==> r == RelocTarget::Trap,
            index != 0 ==> r == RelocTarget::Call(index),
    {
        if index == 0 {
            RelocTarget::Trap
        } else {
            RelocTarget::Call(index)
        }
    }
}

/// A relocation: a byte offset inside a placeholder line, and its target.
#[derive(Clone, Copy, Debug, PartialEq, Eq, Structural)]
pub struct Relocation {
    pub offset: usize,
    pub target: RelocTarget,
}

/// Why a buffer could not be patched.
#[derive(Clone, Copy, Debug, PartialEq, Eq, Structural)]
pub enum PatchError {
    /// The relocation with this position in the list does not fall inside a
    /// newline-terminated line after the previous relocation's line.
    MisplacedSite(usize),
}

/// The line feed byte.
pub open spec fn newline() -> u8 {
    10
}

/// The index of the first line feed at or after `i`, or the length of `b`
/// when there is none.
pub open spec fn line_end(b: Seq<u8>, i: int) -> int
    decreases b.len() - i,
{
    if i >= b.len() {
        b.len() as int
    } else if b[i] == newline() {
        i
    } else {
        line_end(b, i + 1)
    }
}

/// The text that replaces the placeholder of a relocation with `target`. A
/// call of function index `0` is the trap sentinel, so it aborts too.
pub open spec fn site_text(target: RelocTarget) -> Seq<u8> {
    match target {
        RelocTarget::Trap => "  B :ASSERT".spec_bytes(),
        RelocTarget::Call(n) => if n == 0 {
            "  B :ASSERT".spec_bytes()
        } else {
            "  zkPC + 2 => RR\n  :JMP(function_".spec_bytes() + decimal(n as nat) + ")".spec_bytes()
        },
        RelocTarget::Unresolved => "  UNKNOWN".spec_bytes(),
    }
}

/// The relocations from position `k` on each fall inside a line-feed
/// terminated line of `b`, at or after `min`, and each after the line of the
/// one before.
pub open spec fn sites_from(b: Seq<u8>, rs: Seq<Relocation>, k: int, min: int) -> bool
    decreases rs.len() - k,
{
    if k < 0 || k >= rs.len() {
        true
    } else {
        let o = rs[k].offset as int;
        &&& min <= o < b.len()
        &&& line_end(b, o) < b.len()
        &&& sites_from(b, rs, k + 1, line_end(b, o) + 1)
    }
}

/// The position of the first relocation from `k` on that is not placed as
/// patching requires (`min` bounding its offset from below), or `-1`.
pub open spec fn first_misplaced(b: Seq<u8>, rs: Seq<Relocation>, k: int, min: int) -> int
    decreases rs.len() - k,
{
    if k < 0 || k >= rs.len() {
        -1
    } else {
        let o = rs[k].offset as int;
        if !(min <= o < b.len() && line_end(b, o) < b.len()) {
            k
        } else {
            first_misplaced(b, rs, k + 1, line_end(b, o) + 1)
        }
    }
}

/// Every relocation of `rs` is placed as patching requires.
pub open spec fn sites_ok(b: Seq<u8>, rs: Seq<Relocation>) -> bool {
    sites_from(b, rs, 0, 0)
}

/// The bytes of `b` from `pos` on, with the placeholders of the relocations
/// from position `k` on replaced.
pub open spec fn patched_from(b: Seq<u8>, rs: Seq<Relocation>, k: int, pos: int) -> Seq<u8>
    decreases rs.len() - k,
{
    if k < 0 || k >= rs.len() {
        b.subrange(pos, b.len() as int)
    } else {
        let o = rs[k].offset as int;
        b.subrange(pos, o) + site_text(rs[k].target) + patched_from(b, rs, k + 1, line_end(b, o))
    }
}

/// `b` with the placeholder line of every relocation replaced by its text.
pub open spec fn patched(b: Seq<u8>, rs: Seq<Relocation>) -> Seq<u8> {
    patched_from(b, rs, 0, 0)
}

/// How much longer the buffer gets when relocation `k` is patched: its text
/// replaces the bytes from its offset up to the end of its line.
pub open spec fn site_delta(b: Seq<u8>, rs: Seq<Relocation>, k: int) -> int {
    site_text(rs[k].target).len() - (line_end(b, rs[k].offset as int) - rs[k].offset as int)
}

/// The sum of the length changes of the relocations at positions `j..k`.
pub open spec fn delta_sum(b: Seq<u8>, rs: Seq<Relocation>, j: int, k: int) -> int
    decreases k - j,
{
    if j >= k {
        0
    } else {
        site_delta(b, rs, j) + delta_sum(b, rs, j + 1, k)
    }
}

/// Appends the replacement text of a relocation with `target`.
fn push_site_text(out: &mut Vec<u8>, target: RelocTarget)
    ensures
        final(out)@ == old(out)@ + site_text(target),
{
    match target {
        RelocTarget::Trap => push_str(out, "  B :ASSERT"),
        RelocTarget::Call(0) => push_str(out, "  B :ASSERT"),
        RelocTarget::Call(n) => {
            push_str(out, "  zkPC + 2 => RR\n  :JMP(function_");
            push_decimal(out, n as u64);
            push_str(out, ")");
            proof {
                assert(final(out)@ =~= old(out)@ + site_text(target));
            }
        },
        RelocTarget::Unresolved => push_str(out, "  UNKNOWN"),
    }
}

/// The index of the first line feed of `b` at or after `start`, or its length.
pub fn find_line_end(b: &Vec<u8>, start: usize) -> (r: usize)
    requires
        start <= b@.len(),
    ensures
        r as int == line_end(b@, start as int),
{
    let mut pos = start;
    while pos < b.len() && b[pos] != 10u8
        invariant
            start <= pos <= b@.len(),
            line_end(b@, start as int) == line_end(b@, pos as int),
        decreases b@.len() - pos,
    {
        pos += 1;
    }
    pos
}

/// Replaces the placeholder line of every relocation of `relocs` (in list
/// order, which must be ascending by offset) with the text of its target.
/// The placeholder runs from the relocation's offset to the end of its line;
/// the line feed itself is kept.
pub fn patch_relocations(code: &Vec<u8>, relocs: &Vec<Relocation>) -> (r: Result<
    Vec<u8>,
    PatchError,
>)
    ensures
        r is Ok <==> sites_ok(code@, relocs@),
        r is Ok ==> r->Ok_0@ == patched(code@, relocs@),
        r matches Err(PatchError::MisplacedSite(k)) ==> k == first_misplaced(code@, relocs@, 0, 0),
{
    let mut out: Vec<u8> = Vec::new();
    let mut pos: usize = 0;
    let mut min: usize = 0;
    let mut k: usize = 0;
    while k < relocs.len()
        invariant
            k <= relocs@.len(),
            pos <= min <= code@.len(),
            sites_ok(code@, relocs@) <==> sites_from(code@, relocs@, k as int, min as int),
            first_misplaced(code@, relocs@, 0, 0) == first_misplaced(
                code@,
                relocs@,
                k as int,
                min as int,
            ),
            out@ + patched_from(code@, relocs@, k as int, pos as int) == patched(code@, relocs@),
        decreases relocs@.len() - k,
    {
        let o = relocs[k].offset;
        if o < min || o >= code.len() {
            return Err(PatchError::MisplacedSite(k));
        }
        let e = find_line_end(code, o);
        if e >= code.len() {
            return Err(PatchError::MisplacedSite(k));
        }
        let ghost before = out@;
        push_range(&mut out, code, pos, o);
        push_site_text(&mut out, relocs[k].target);
        proof {
            assert(out@ + patched_from(code@, relocs@, k + 1, e as int) =~= before
                + patched_from(code@, relocs@, k as int, pos as int));
        }
        pos = e;
        min = e + 1;
        k += 1;
    }
    push_range(&mut out, code, pos, code.len());
    proof {
        assert(out@ =~= patched(code@, relocs@));
    }
    Ok(out)
}

proof fn lemma_line_end_bounds(b: Seq<u8>, i: int)
    requires
        0 <= i <= b.len(),
    ensures
        i <= line_end(b, i) <= b.len(),
    decreases b.len() - i,
{
    if i < b.len() && b[i] != newline() {
        lemma_line_end_bounds(b, i + 1);
    }
}

proof fn lemma_patched_from_len(b: Seq<u8>, rs: Seq<Relocation>, k: int, pos: int, min: int)
    requires
        0 <= k <= rs.len(),
        0 <= pos <= min,
        pos <= b.len(),
        sites_from(b, rs, k, min),
    ensures
        patched_from(b, rs, k, pos).len() == b.len() - pos + delta_sum(b, rs, k, rs.len() as int),
    decreases rs.len() - k,
{
    if k < rs.len() {
        let e = line_end(b, rs[k].offset as int);
        lemma_line_end_bounds(b, rs[k].offset as int);
        lemma_patched_from_len(b, rs, k + 1, e, e + 1);
    }
}

/// Patching changes the length of the buffer by exactly the sum of what each
/// relocation adds: its text's length less the length of its placeholder.
pub proof fn lemma_patched_len(b: Seq<u8>, rs: Seq<Relocation>)
    requires
        sites_ok(b, rs),
    ensures
        patched(b, rs).len() == b.len() + delta_sum(b, rs, 0, rs.len() as int),
{
    lemma_patched_from_len(b, rs, 0, 0, 0);
}

proof fn lemma_site_position_from(
    b: Seq<u8>,
    rs: Seq<Relocation>,
    j: int,
    pos: int,
    min: int,
    k: int,
)
    requires
        0 <= j <= k < rs.len(),
        0 <= pos <= min,
        pos <= b.len(),
        sites_from(b, rs, j, min),
    ensures
        ({
            let at = rs[k].offset as int - pos + delta_sum(b, rs, j, k);
            let text = site_text(rs[k].target);
            &&& 0 <= at
            &&& at + text.len() <= patched_from(b, rs, j, pos).len()
            &&& patched_from(b, rs, j, pos).subrange(at, at + text.len()) == text
        }),
    decreases k - j,
{
    let o = rs[j].offset as int;
    let e = line_end(b, o);
    let text_j = site_text(rs[j].target);
    lemma_line_end_bounds(b, o);
    let head = b.subrange(pos, o) + text_j;
    let rest = patched_from(b, rs, j + 1, e);
    assert(patched_from(b, rs, j, pos) == head + rest);
    if j == k {
        lemma_patched_from_len(b, rs, j + 1, e, e + 1);
        assert((head + rest).subrange(o - pos, o - pos + text_j.len()) =~= text_j);
    } else {
        lemma_site_position_from(b, rs, j + 1, e, e + 1, k);
        let at = rs[k].offset as int - e + delta_sum(b, rs, j + 1, k);
        let text = site_text(rs[k].target);
        assert(rest.subrange(at, at + text.len()) == text);
        assert((head + rest).subrange(head.len() + at, head.len() + at + text.len()) =~= rest.subrange(
            at,
            at + text.len(),
        ));
    }
}

/// Once patched, the text of relocation `k` starts at its original offset
/// shifted by the length changes of all the relocations before it.
pub proof fn lemma_site_position(b: Seq<u8>, rs: Seq<Relocation>, k: int)
    requires
        sites_ok(b, rs),
        0 <= k < rs.len(),
    ensures
        ({
            let at = rs[k].offset as int + delta_sum(b, rs, 0, k);
            let text = site_text(rs[k].target);
            &&& 0 <= at
            &&& at + text.len() <= patched(b, rs).len()
            &&& patched(b, rs).subrange(at, at + text.len()) == text
        }),
{
    lemma_site_position_from(b, rs, 0, 0, 0, k);
}

/// Where the bytes kept before relocation `k` start: after the previous
/// relocation's replaced span (its line feed is kept), or at `0`.
pub open spec fn kept_start(b: Seq<u8>, rs: Seq<Relocation>, k: int) -> int {
    if k <= 0 {
        0
    } else {
        line_end(b, rs[k - 1].offset as int)
    }
}

/// Where the bytes kept before relocation `k` end: at its offset, or at the
/// end of the buffer after the last relocation.
pub open spec fn kept_end(b: Seq<u8>, rs: Seq<Relocation>, k: int) -> int {
    if k >= rs.len() {
        b.len() as int
    } else {
        rs[k].offset as int
    }
}

proof fn lemma_kept_byte_from(
    b: Seq<u8>,
    rs: Seq<Relocation>,
    j: int,
    pos: int,
    min: int,
    k: int,
    q: int,
)
    requires
        0 <= j <= k <= rs.len(),
        0 <= pos <= min,
        pos <= b.len(),
        sites_from(b, rs, j, min),
        j == k ==> pos == kept_start(b, rs, k),
        j < k ==> pos <= rs[j].offset,
        kept_start(b, rs, k) <= q < kept_end(b, rs, k),
    ensures
        ({
            let at = q - pos + delta_sum(b, rs, j, k);
            &&& 0 <= at < patched_from(b, rs, j, pos).len()
            &&& patched_from(b, rs, j, pos)[at] == b[q]
        }),
    decreases k - j,
{
    if j == rs.len() {
        assert(patched_from(b, rs, j, pos) == b.subrange(pos, b.len() as int));
    } else {
        let o = rs[j].offset as int;
        let e = line_end(b, o);
        lemma_line_end_bounds(b, o);
        let head = b.subrange(pos, o) + site_text(rs[j].target);
        let rest = patched_from(b, rs, j + 1, e);
        assert(patched_from(b, rs, j, pos) == head + rest);
        lemma_patched_from_len(b, rs, j + 1, e, e + 1);
        if j == k {
            assert((head + rest)[q - pos] == b[q]);
        } else {
            if j + 1 < k {
                assert(sites_from(b, rs, j + 1, e + 1));
                assert(e + 1 <= rs[j + 1].offset);
            }
            lemma_kept_byte_from(b, rs, j + 1, e, e + 1, k, q);
            let at = q - e + delta_sum(b, rs, j + 1, k);
            assert((head + rest)[head.len() + at] == rest[at]);
        }
    }
}

/// Every byte outside the replaced spans comes through patching unchanged,
/// moved by the length changes of the relocations before it.
pub proof fn lemma_kept_byte(b: Seq<u8>, rs: Seq<Relocation>, k: int, q: int)
    requires
        sites_ok(b, rs),
        0 <= k <= rs.len(),
        kept_start(b, rs, k) <= q < kept_end(b, rs, k),
    ensures
        ({
            let at = q + delta_sum(b, rs, 0, k);
            &&& 0 <= at < patched(b, rs).len()
            &&& patched(b, rs)[at] == b[q]
        }),
{
    if 0 < k {
        assert(0 <= rs[0].offset);
    }
    lemma_kept_byte_from(b, rs, 0, 0, 0, k, q);
}

} // verus!
