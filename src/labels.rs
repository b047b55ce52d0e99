//! Label renaming and elision for the text of one function.
//!
//! A label definition is a line `label_<n>:`; a label use is any other line
//! that holds `label_<n>` (such as `  :JMP(label_<n>)`). Labels are renamed to
//! `label_<f>_<n>`, where `<f>` is the index of the owning function, so that
//! they stay unique once functions are concatenated.
use vstd::prelude::*;
use crate::text::{decimal, push_decimal, push_range, text_of};

verus! {

/// The bytes `label_`.
pub open spec fn label_prefix() -> Seq<u8> {
    seq![108u8, 97u8, 98u8, 101u8, 108u8, 95u8]
}

/// `line` holds `label_` at position `p`.
pub open spec fn has_prefix_at(line: Seq<u8>, p: int) -> bool {
    0 <= p && p + 6 <= line.len() && line.subrange(p, p + 6) == label_prefix()
}

/// The first position at or after `i` at which `line` holds `label_`, or `-1`.
pub open spec fn find_prefix(line: Seq<u8>, i: int) -> int
    decreases line.len() - i,
{
    if i < 0 || i + 6 > line.len() {
        -1
    } else if has_prefix_at(line, i) {
        i
    } else {
        find_prefix(line, i + 1)
    }
}

pub open spec fn is_digit(c: u8) -> bool {
    48 <= c <= 57
}

/// Every byte of `s` is an ASCII digit.
pub open spec fn all_digits(s: Seq<u8>) -> bool {
    forall|i: int| 0 <= i < s.len() ==> is_digit(#[trigger] s[i])
}

/// The number that a string of decimal digits stands for.
pub open spec fn digits_value(s: Seq<u8>) -> nat
    decreases s.len(),
{
    if s.len() == 0 {
        0
    } else {
        digits_value(s.drop_last()) * 10 + (s.last() - 48) as nat
    }
}

/// The end of the run of digits of `line` that starts at `i`.
pub open spec fn digits_end(line: Seq<u8>, i: int) -> int
    decreases line.len() - i,
{
    if i < 0 || i >= line.len() || !is_digit(line[i]) {
        i
    } else {
        digits_end(line, i + 1)
    }
}

/// What a line of function text is, as far as labels go.
#[derive(Clone, Copy, Debug, PartialEq, Eq, Structural)]
pub enum LabelLine {
    /// A line with no label in it.
    Plain,
    /// The definition of the label with this number.
    Def(u64),
    /// A use of the label `label`, whose name starts at byte `at`.
    Use { label: u64, at: usize },
}

/// How `line` reads, or `None` when it holds `label_` without a number that
/// fits in 64 bits after it, or holds `label_` twice (a line refers to one
/// label at most).
pub open spec fn classify(line: Seq<u8>) -> Option<LabelLine> {
    if has_prefix_at(line, 0) {
        let digits = line.subrange(6, line.len() - 1);
        if line.len() >= 8 && line.last() == 58u8 && all_digits(digits) && digits_value(digits)
            <= u64::MAX {
            Some(LabelLine::Def(digits_value(digits) as u64))
        } else {
            None
        }
    } else {
        let p = find_prefix(line, 0);
        if p < 0 {
            Some(LabelLine::Plain)
        } else {
            let e = digits_end(line, p + 6);
            let digits = line.subrange(p + 6, e);
            if e > p + 6 && digits_value(digits) <= u64::MAX && find_prefix(line, p + 6) == -1 {
                Some(LabelLine::Use { label: digits_value(digits) as u64, at: p as usize })
            } else {
                None
            }
        }
    }
}

/// `line` with `_<f>` inserted at byte `at`.
pub open spec fn insert_owner(line: Seq<u8>, at: int, f: nat) -> Seq<u8> {
    line.subrange(0, at) + seq![95u8] + decimal(f) + line.subrange(at, line.len() as int)
}

/// Whether one of `kinds[0..i]` defines label `n`.
fn defined_before(kinds: &Vec<LabelLine>, i: usize, n: u64) -> (r: bool)
    requires
        i <= kinds@.len(),
    ensures
        r == exists|j: int| 0 <= j < i && #[trigger] kinds@[j] == LabelLine::Def(n),
{
    let mut j: usize = 0;
    while j < i
        invariant
            j <= i <= kinds@.len(),
            forall|m: int| 0 <= m < j ==> kinds@[m] != LabelLine::Def(n),
        decreases i - j,
    {
        if kinds[j] == LabelLine::Def(n) {
            return true;
        }
        j += 1;
    }
    false
}

/// `line`, read as `kind`, with its label renamed for function `f`.
pub open spec fn rename(line: Seq<u8>, kind: LabelLine, f: nat) -> Seq<u8> {
    match kind {
        LabelLine::Plain => line,
        LabelLine::Def(_) => insert_owner(line, 5, f),
        LabelLine::Use { label: _, at } => insert_owner(line, at + 5, f),
    }
}

/// The number of uses of label `n` among `kinds[0..upto]`.
pub open spec fn use_count(kinds: Seq<LabelLine>, n: u64, upto: int) -> nat
    decreases upto,
{
    if upto <= 0 || upto > kinds.len() {
        0
    } else {
        use_count(kinds, n, upto - 1) + match kinds[upto - 1] {
            LabelLine::Use { label, at: _ } => if label == n {
                1nat
            } else {
                0nat
            },
            _ => 0nat,
        }
    }
}

/// The number of uses of label `n` in the function.
pub open spec fn uses(kinds: Seq<LabelLine>, n: u64) -> nat {
    use_count(kinds, n, kinds.len() as int)
}

/// `kinds[i]` is a use of label `n`.
pub open spec fn is_use_of(kinds: Seq<LabelLine>, i: int, n: u64) -> bool {
    0 <= i < kinds.len() && match kinds[i] {
        LabelLine::Use { label, at: _ } => label == n,
        _ => false,
    }
}

/// Line `i` goes: a definition that nothing uses, or a definition and its only
/// use, when that use is the line just before it.
pub open spec fn elided(kinds: Seq<LabelLine>, i: int) -> bool {
    match kinds[i] {
        LabelLine::Plain => false,
        LabelLine::Def(n) => uses(kinds, n) == 0 || (uses(kinds, n) == 1 && is_use_of(
            kinds,
            i - 1,
            n,
        )),
        LabelLine::Use { label, at: _ } => uses(kinds, label) == 1 && i + 1 < kinds.len()
            && kinds[i + 1] == LabelLine::Def(label),
    }
}

/// The renamed lines among the first `upto` that are not elided.
pub open spec fn kept(lines: Seq<Seq<u8>>, kinds: Seq<LabelLine>, f: nat, upto: int) -> Seq<
    Seq<u8>,
>
    decreases upto,
{
    if upto <= 0 {
        Seq::empty()
    } else if elided(kinds, upto - 1) {
        kept(lines, kinds, f, upto - 1)
    } else {
        kept(lines, kinds, f, upto - 1).push(rename(lines[upto - 1], kinds[upto - 1], f))
    }
}

/// Line `i` defines a label that one of the lines before it defines too.
pub open spec fn redefines(kinds: Seq<LabelLine>, i: int) -> bool {
    match kinds[i] {
        LabelLine::Def(n) => exists|j: int| 0 <= j < i && #[trigger] kinds[j] == LabelLine::Def(n),
        _ => false,
    }
}

/// Line `i` uses a label that no line of the function defines.
pub open spec fn undefined_use(kinds: Seq<LabelLine>, i: int) -> bool {
    match kinds[i] {
        LabelLine::Use { label, at: _ } => !exists|j: int|
            0 <= j < kinds.len() && #[trigger] kinds[j] == LabelLine::Def(label),
        _ => false,
    }
}

/// Why the labels of a function could not be processed.
#[derive(Clone, Copy, Debug, PartialEq, Eq, Structural)]
pub enum LabelError {
    /// The line with this index holds `label_` without a number after it.
    Malformed(usize),
    /// The line with this index defines a label that an earlier line defines.
    Redefined(usize),
    /// The line with this index uses a label that the function does not define.
    Undefined(usize),
}


proof fn lemma_digits_value_step(s: Seq<u8>, i: int)
    requires
        0 <= i < s.len(),
    ensures
        digits_value(s.subrange(0, i + 1)) == digits_value(s.subrange(0, i)) * 10 + (s[i] - 48) as nat,
{
    assert(s.subrange(0, i + 1).drop_last() =~= s.subrange(0, i));
}

proof fn lemma_digits_value_mono(s: Seq<u8>, i: int, j: int)
    requires
        0 <= i <= j <= s.len(),
        all_digits(s),
    ensures
        digits_value(s.subrange(0, i)) <= digits_value(s.subrange(0, j)),
    decreases j - i,
{
    if i < j {
        lemma_digits_value_mono(s, i, j - 1);
        lemma_digits_value_step(s, j - 1);
        assert(is_digit(s[j - 1]));
        let a = digits_value(s.subrange(0, j - 1));
        assert(a <= a * 10) by (nonlinear_arith);
    }
}

/// Whether `line` holds `label_` at byte `p`.
fn prefix_at(line: &Vec<u8>, p: usize) -> (r: bool)
    ensures
        r == has_prefix_at(line@, p as int),
{
    if p > line.len() || line.len() - p < 6 {
        return false;
    }
    let r = line[p] == 108u8 && line[p + 1] == 97u8 && line[p + 2] == 98u8 && line[p + 3] == 101u8
        && line[p + 4] == 108u8 && line[p + 5] == 95u8;
    proof {
        if r {
            assert(line@.subrange(p as int, p + 6) =~= label_prefix());
        } else {
            if line@.subrange(p as int, p + 6) == label_prefix() {
                assert(line@.subrange(p as int, p + 6)[0] == line@[p as int]);
                assert(line@.subrange(p as int, p + 6)[1] == line@[p + 1]);
                assert(line@.subrange(p as int, p + 6)[2] == line@[p + 2]);
                assert(line@.subrange(p as int, p + 6)[3] == line@[p + 3]);
                assert(line@.subrange(p as int, p + 6)[4] == line@[p + 4]);
                assert(line@.subrange(p as int, p + 6)[5] == line@[p + 5]);
            }
        }
    }
    r
}

/// The number that the digits `line[start..end]` stand for, or `None` when it
/// does not fit in 64 bits.
fn parse_digits(line: &Vec<u8>, start: usize, end: usize) -> (r: Option<u64>)
    requires
        start <= end <= line@.len(),
        all_digits(line@.subrange(start as int, end as int)),
    ensures
        r is Some <==> digits_value(line@.subrange(start as int, end as int)) <= u64::MAX,
        r is Some ==> r->Some_0 == digits_value(line@.subrange(start as int, end as int)),
{
    let ghost s = line@.subrange(start as int, end as int);
    let mut v: u64 = 0;
    let mut i: usize = start;
    assert(s.subrange(0, 0) =~= Seq::<u8>::empty());
    while i < end
        invariant
            start <= i <= end <= line@.len(),
            s == line@.subrange(start as int, end as int),
            all_digits(s),
            v == digits_value(s.subrange(0, i - start)),
        decreases end - i,
    {
        assert(s[i - start] == line@[i as int]);
        assert(is_digit(s[i - start]));
        let d: u64 = (line[i] - 48u8) as u64;
        proof {
            lemma_digits_value_step(s, i - start);
        }
        if v > (u64::MAX - d) / 10 {
            proof {
                assert(v * 10 + d > u64::MAX) by (nonlinear_arith)
                    requires
                        v > (u64::MAX - d) / 10,
                        d <= 9,
                ;
                lemma_digits_value_mono(s, i - start + 1, s.len() as int);
                assert(s.subrange(0, s.len() as int) =~= s);
            }
            return None;
        }
        proof {
            assert(v * 10 + d <= u64::MAX) by (nonlinear_arith)
                requires
                    v <= (u64::MAX - d) / 10,
                    d <= 9,
            ;
        }
        v = v * 10 + d;
        i += 1;
    }
    assert(s.subrange(0, end - start) =~= s);
    Some(v)
}

/// The end of the run of digits of `line` that starts at `i`.
fn find_digits_end(line: &Vec<u8>, i: usize) -> (r: usize)
    requires
        i <= line@.len(),
    ensures
        r as int == digits_end(line@, i as int),
        i <= r <= line@.len(),
        all_digits(line@.subrange(i as int, r as int)),
        r < line@.len() ==> !is_digit(line@[r as int]),
{
    let mut e = i;
    while e < line.len() && line[e] >= 48u8 && line[e] <= 57u8
        invariant
            i <= e <= line@.len(),
            digits_end(line@, i as int) == digits_end(line@, e as int),
            all_digits(line@.subrange(i as int, e as int)),
        decreases line@.len() - e,
    {
        e += 1;
        assert forall|k: int| 0 <= k < e - i implies is_digit(
            #[trigger] line@.subrange(i as int, e as int)[k],
        ) by {
            assert(line@.subrange(i as int, e as int)[k] == line@[i + k]);
            if k < e - 1 - i {
                assert(line@.subrange(i as int, e - 1)[k] == line@[i + k]);
            }
        }
    }
    e
}

/// The first position at or after `i` at which `line` holds `label_`.
fn find_label_prefix(line: &Vec<u8>, i: usize) -> (r: Option<usize>)
    ensures
        r is None ==> find_prefix(line@, i as int) == -1,
        r is Some ==> r->Some_0 as int == find_prefix(line@, i as int),
        r is Some ==> has_prefix_at(line@, r->Some_0 as int),
{
    let mut p = i;
    while p <= line.len() && line.len() - p >= 6
        invariant
            i <= p,
            find_prefix(line@, i as int) == find_prefix(line@, p as int),
        decreases line@.len() + 1 - p,
    {
        if prefix_at(line, p) {
            return Some(p);
        }
        p += 1;
    }
    None
}

/// Reads `line` as plain text, a label definition or a label use.
pub fn classify_line(line: &Vec<u8>) -> (r: Option<LabelLine>)
    ensures
        r == classify(line@),
{
    if prefix_at(line, 0) {
        let len = line.len();
        if len >= 8 && line[len - 1] == 58u8 {
            let e = find_digits_end(line, 6);
            if e >= len - 1 {
                proof {
                    assert(!is_digit(line@[len - 1]));
                }
                return match parse_digits(line, 6, len - 1) {
                    Some(n) => Some(LabelLine::Def(n)),
                    None => None,
                };
            } else {
                proof {
                    assert(!is_digit(line@[e as int]));
                    assert(line@.subrange(6, len - 1)[e - 6] == line@[e as int]);
                }
                return None;
            }
        }
        return None;
    }
    match find_label_prefix(line, 0) {
        None => Some(LabelLine::Plain),
        Some(p) => {
            let len = line.len();
            assert(p + 6 <= len);
            let e = find_digits_end(line, p + 6);
            if e == p + 6 {
                return None;
            }
            if find_label_prefix(line, p + 6).is_some() {
                return None;
            }
            match parse_digits(line, p + 6, e) {
                Some(n) => Some(LabelLine::Use { label: n, at: p }),
                None => None,
            }
        },
    }
}

/// Every line of `lines` reads as plain text, a definition or a use.
pub open spec fn all_classified(lines: Seq<Seq<u8>>) -> bool {
    forall|i: int| 0 <= i < lines.len() ==> (#[trigger] classify(lines[i])) is Some
}

/// How each line of `lines` reads.
pub open spec fn kinds_of(lines: Seq<Seq<u8>>) -> Seq<LabelLine> {
    lines.map_values(|l: Seq<u8>| classify(l)->Some_0)
}

/// What label processing makes of the lines of function `f`.
#[verifier::opaque]
pub open spec fn optimized(lines: Seq<Seq<u8>>, f: nat) -> Result<Seq<Seq<u8>>, LabelError> {
    if exists|i: int| 0 <= i < lines.len() && (#[trigger] classify(lines[i])) is None {
        let i = choose|i: int|
            0 <= i < lines.len() && (#[trigger] classify(lines[i])) is None && forall|j: int|
                0 <= j < i ==> (#[trigger] classify(lines[j])) is Some;
        Err(LabelError::Malformed(i as usize))
    } else if exists|i: int| 0 <= i < lines.len() && #[trigger] redefines(kinds_of(lines), i) {
        let i = choose|i: int|
            0 <= i < lines.len() && #[trigger] redefines(kinds_of(lines), i) && forall|j: int|
                0 <= j < i ==> !#[trigger] redefines(kinds_of(lines), j);
        Err(LabelError::Redefined(i as usize))
    } else if exists|i: int| 0 <= i < lines.len() && #[trigger] undefined_use(kinds_of(lines), i) {
        let i = choose|i: int|
            0 <= i < lines.len() && #[trigger] undefined_use(kinds_of(lines), i) && forall|j: int|
                0 <= j < i ==> !#[trigger] undefined_use(kinds_of(lines), j);
        Err(LabelError::Undefined(i as usize))
    } else {
        Ok(kept(lines, kinds_of(lines), f, lines.len() as int))
    }
}

/// The number of uses of label `n` in `kinds`.
fn count_uses(kinds: &Vec<LabelLine>, n: u64) -> (r: usize)
    ensures
        r == uses(kinds@, n),
{
    let mut c: usize = 0;
    let mut i: usize = 0;
    while i < kinds.len()
        invariant
            i <= kinds@.len(),
            c == use_count(kinds@, n, i as int),
            c <= i,
        decreases kinds@.len() - i,
    {
        match kinds[i] {
            LabelLine::Use { label, at: _ } => {
                if label == n {
                    c += 1;
                }
            },
            _ => {},
        }
        i += 1;
    }
    c
}

/// Whether line `i` is elided.
fn is_elided(kinds: &Vec<LabelLine>, i: usize) -> (r: bool)
    requires
        i < kinds@.len(),
    ensures
        r == elided(kinds@, i as int),
{
    match kinds[i] {
        LabelLine::Plain => false,
        LabelLine::Def(n) => {
            let c = count_uses(kinds, n);
            if c == 0 {
                true
            } else if c == 1 && i >= 1 {
                match kinds[i - 1] {
                    LabelLine::Use { label, at: _ } => label == n,
                    _ => false,
                }
            } else {
                false
            }
        },
        LabelLine::Use { label, at: _ } => {
            let c = count_uses(kinds, label);
            c == 1 && i < kinds.len() - 1 && kinds[i + 1] == LabelLine::Def(label)
        },
    }
}

/// `line`, read as `kind`, with its label renamed for function `f`.
fn renamed_line(line: &Vec<u8>, kind: LabelLine, f: u64) -> (r: Vec<u8>)
    requires
        classify(line@) == Some(kind),
    ensures
        r@ == rename(line@, kind, f as nat),
{
    let len = line.len();
    let at: usize = match kind {
        LabelLine::Plain => {
            return line.clone();
        },
        LabelLine::Def(_) => 5,
        LabelLine::Use { label: _, at } => at + 5,
    };
    let mut out: Vec<u8> = Vec::new();
    push_range(&mut out, line, 0, at);
    out.push(95u8);
    push_decimal(&mut out, f);
    push_range(&mut out, line, at, line.len());
    proof {
        assert(out@ =~= insert_owner(line@, at as int, f as nat));
    }
    out
}

/// Renames every label of the text of function `func_index` to hold the
/// function's index, and drops the definitions that nothing uses and the
/// jumps to a label that directly follows them (with that label) when the
/// jump is the label's only use.
pub fn optimize_labels(lines: &Vec<Vec<u8>>, func_index: u64) -> (r: Result<
    Vec<Vec<u8>>,
    LabelError,
>)
    ensures
        r matches Ok(out) ==> optimized(text_of(lines@), func_index as nat) == Ok::<
            Seq<Seq<u8>>,
            LabelError,
        >(text_of(out@)),
        r matches Err(e) ==> optimized(text_of(lines@), func_index as nat) == Err::<
            Seq<Seq<u8>>,
            LabelError,
        >(e),
{
    let ghost text = text_of(lines@);
    reveal(optimized);
    let mut kinds: Vec<LabelLine> = Vec::new();
    let mut i: usize = 0;
    while i < lines.len()
        invariant
            i <= lines@.len(),
            text == text_of(lines@),
            kinds@.len() == i,
            forall|j: int| 0 <= j < i ==> (#[trigger] classify(text[j])) == Some(kinds@[j]),
        decreases lines@.len() - i,
    {
        match classify_line(&lines[i]) {
            None => {
                proof {
                    reveal(optimized);
                    assert(classify(text[i as int]) is None);
                    let k = choose|k: int|
                        0 <= k < text.len() && (#[trigger] classify(text[k])) is None && forall|
                            j: int,
                        | 0 <= j < k ==> (#[trigger] classify(text[j])) is Some;
                    assert(k == i) by {
                        if k < i {
                            assert(classify(text[k]) == Some(kinds@[k]));
                        }
                        if k > i {
                            assert(classify(text[i as int]) is Some);
                        }
                    }
                }
                return Err(LabelError::Malformed(i));
            },
            Some(kind) => {
                kinds.push(kind);
            },
        }
        i += 1;
    }
    proof {
        assert(kinds@ =~= kinds_of(text));
        assert(!exists|k: int| 0 <= k < text.len() && (#[trigger] classify(text[k])) is None);
    }
    let mut i: usize = 0;
    while i < kinds.len()
        invariant
            i <= kinds@.len(),
            kinds@ == kinds_of(text),
            text.len() == kinds@.len(),
            text == text_of(lines@),
            !exists|k: int| 0 <= k < text.len() && (#[trigger] classify(text[k])) is None,
            forall|j: int| 0 <= j < i ==> !#[trigger] redefines(kinds@, j),
        decreases kinds@.len() - i,
    {
        let again = match kinds[i] {
            LabelLine::Def(n) => defined_before(&kinds, i, n),
            _ => false,
        };
        if again {
            proof {
                reveal(optimized);
                assert(redefines(kinds@, i as int));
                let k = choose|k: int|
                    0 <= k < text.len() && #[trigger] redefines(kinds_of(text), k) && forall|m: int|
                        0 <= m < k ==> !#[trigger] redefines(kinds_of(text), m);
                assert(k == i) by {
                    if k > i {
                        assert(!redefines(kinds@, i as int));
                    }
                }
            }
            return Err(LabelError::Redefined(i));
        }
        i += 1;
    }
    assert(!exists|k: int| 0 <= k < text.len() && #[trigger] redefines(kinds_of(text), k));
    let mut i: usize = 0;
    while i < kinds.len()
        invariant
            i <= kinds@.len(),
            kinds@ == kinds_of(text),
            text.len() == kinds@.len(),
            text == text_of(lines@),
            !exists|k: int| 0 <= k < text.len() && (#[trigger] classify(text[k])) is None,
            !exists|k: int| 0 <= k < text.len() && #[trigger] redefines(kinds_of(text), k),
            forall|j: int| 0 <= j < i ==> !#[trigger] undefined_use(kinds@, j),
        decreases kinds@.len() - i,
    {
        let missing = match kinds[i] {
            LabelLine::Use { label, at: _ } => !defined_before(&kinds, kinds.len(), label),
            _ => false,
        };
        if missing {
            proof {
                reveal(optimized);
                assert(undefined_use(kinds@, i as int));
                let k = choose|k: int|
                    0 <= k < text.len() && #[trigger] undefined_use(kinds_of(text), k) && forall|m: int|
                        0 <= m < k ==> !#[trigger] undefined_use(kinds_of(text), m);
                assert(k == i) by {
                    if k > i {
                        assert(!undefined_use(kinds@, i as int));
                    }
                }
            }
            return Err(LabelError::Undefined(i));
        }
        i += 1;
    }
    assert(!exists|k: int| 0 <= k < text.len() && #[trigger] undefined_use(kinds_of(text), k));
    let mut out: Vec<Vec<u8>> = Vec::new();
    let mut i: usize = 0;
    while i < lines.len()
        invariant
            i <= lines@.len(),
            text == text_of(lines@),
            kinds@ == kinds_of(text),
            all_classified(text),
            text_of(out@) == kept(text, kinds@, func_index as nat, i as int),
        decreases lines@.len() - i,
    {
        let elide = is_elided(&kinds, i);
        if !elide {
            let line = renamed_line(&lines[i], kinds[i], func_index);
            out.push(line);
            proof {
                assert(text_of(out@) =~= kept(text, kinds@, func_index as nat, i as int).push(
                    rename(text[i as int], kinds@[i as int], func_index as nat),
                ));
            }
        }
        i += 1;
    }
    Ok(out)
}

/// Elision keeps a label and its jumps unless it can drop them safely: a
/// definition whose only use is the line just before it goes together with
/// that use; a label used twice or more keeps its definition and every use; a
/// definition that nothing uses goes alone; plain lines always stay.
pub proof fn lemma_elision_rules(kinds: Seq<LabelLine>, i: int, n: u64)
    requires
        0 <= i < kinds.len(),
    ensures
        kinds[i] == LabelLine::Def(n) && uses(kinds, n) == 1 && is_use_of(kinds, i - 1, n) ==> elided(
            kinds,
            i,
        ) && elided(kinds, i - 1),
        uses(kinds, n) >= 2 && (kinds[i] == LabelLine::Def(n) || is_use_of(kinds, i, n)) ==> !elided(
            kinds,
            i,
        ),
        kinds[i] == LabelLine::Def(n) && uses(kinds, n) == 0 ==> elided(kinds, i),
        kinds[i] == LabelLine::Plain ==> !elided(kinds, i),
{
}

/// Every line of `lines`, read as `kinds`, with its label renamed for `f`.
pub open spec fn renamed_all(lines: Seq<Seq<u8>>, kinds: Seq<LabelLine>, f: nat) -> Seq<Seq<u8>> {
    Seq::new(lines.len(), |i: int| rename(lines[i], kinds[i], f))
}

proof fn lemma_kept_extends(lines: Seq<Seq<u8>>, kinds: Seq<LabelLine>, f: nat, m: int, n: int)
    requires
        0 <= m <= n <= lines.len(),
        forall|i: int| m <= i < n ==> !#[trigger] elided(kinds, i),
    ensures
        kept(lines, kinds, f, n) == kept(lines, kinds, f, m) + renamed_all(lines, kinds, f).subrange(
            m,
            n,
        ),
    decreases n - m,
{
    if m < n {
        lemma_kept_extends(lines, kinds, f, m, n - 1);
        assert(kept(lines, kinds, f, n) =~= kept(lines, kinds, f, m) + renamed_all(
            lines,
            kinds,
            f,
        ).subrange(m, n));
    } else {
        assert(renamed_all(lines, kinds, f).subrange(m, n) =~= Seq::<Seq<u8>>::empty());
    }
}

/// Function `f`'s lines mention one label, `l`, defined on line `j` alone:
/// every other line is plain or a use of `l`.
pub open spec fn single_label(lines: Seq<Seq<u8>>, j: int, l: u64) -> bool {
    &&& all_classified(lines)
    &&& 0 <= j < lines.len()
    &&& kinds_of(lines)[j] == LabelLine::Def(l)
    &&& forall|i: int|
        0 <= i < lines.len() && i != j ==> (#[trigger] kinds_of(lines)[i] == LabelLine::Plain
            || is_use_of(kinds_of(lines), i, l))
}

/// On a function whose one label `l` is defined on line `j`, label processing
/// succeeds, renames every line, and: when the only use of `l` is line
/// `j - 1`, drops lines `j - 1` and `j`; when `l` is used twice, drops no
/// line; when `l` is not used, drops line `j` alone. Every other line stays,
/// in order.
pub proof fn lemma_single_label_output(lines: Seq<Seq<u8>>, f: nat, j: int, l: u64)
    requires
        single_label(lines, j, l),
    ensures
        ({
            let kinds = kinds_of(lines);
            let all = renamed_all(lines, kinds, f);
            &&& uses(kinds, l) == 1 && is_use_of(kinds, j - 1, l) ==> optimized(lines, f) == Ok::<
                Seq<Seq<u8>>,
                LabelError,
            >(all.subrange(0, j - 1) + all.subrange(j + 1, lines.len() as int))
            &&& uses(kinds, l) == 2 ==> optimized(lines, f) == Ok::<Seq<Seq<u8>>, LabelError>(all)
            &&& uses(kinds, l) == 0 ==> optimized(lines, f) == Ok::<Seq<Seq<u8>>, LabelError>(
                all.subrange(0, j) + all.subrange(j + 1, lines.len() as int),
            )
        }),
{
    reveal(optimized);
    let kinds = kinds_of(lines);
    let n = lines.len() as int;
    let all = renamed_all(lines, kinds, f);
    assert(!exists|i: int| 0 <= i < n && (#[trigger] classify(lines[i])) is None);
    assert forall|i: int| 0 <= i < n implies !#[trigger] redefines(kinds, i) by {
        if redefines(kinds, i) {
            let k = choose|k: int| 0 <= k < i && #[trigger] kinds[k] == kinds[i];
            assert(i == j && k == j);
        }
    }
    assert(!exists|i: int| 0 <= i < n && #[trigger] redefines(kinds_of(lines), i));
    assert forall|i: int| 0 <= i < n implies !#[trigger] undefined_use(kinds, i) by {
        if i != j && is_use_of(kinds, i, l) {
            assert(kinds[j] == LabelLine::Def(l));
        }
    }
    assert(!exists|i: int| 0 <= i < n && #[trigger] undefined_use(kinds_of(lines), i));
    assert(optimized(lines, f) == Ok::<Seq<Seq<u8>>, LabelError>(kept(lines, kinds, f, n)));
    assert(kept(lines, kinds, f, 0) =~= Seq::<Seq<u8>>::empty());
    if uses(kinds, l) == 1 && is_use_of(kinds, j - 1, l) {
        assert forall|i: int| 0 <= i < j - 1 implies !#[trigger] elided(kinds, i) by {
            if kinds[i] != LabelLine::Plain {
                assert(is_use_of(kinds, i, l));
            }
        }
        assert forall|i: int| j + 1 <= i < n implies !#[trigger] elided(kinds, i) by {
            if kinds[i] != LabelLine::Plain {
                assert(is_use_of(kinds, i, l));
            }
        }
        lemma_kept_extends(lines, kinds, f, 0, j - 1);
        assert(elided(kinds, j - 1));
        assert(elided(kinds, j));
        assert(kept(lines, kinds, f, j + 1) == kept(lines, kinds, f, j));
        assert(kept(lines, kinds, f, j) == kept(lines, kinds, f, j - 1));
        lemma_kept_extends(lines, kinds, f, j + 1, n);
        assert(all.subrange(0, j - 1) =~= Seq::<Seq<u8>>::empty() + all.subrange(0, j - 1));
    }
    if uses(kinds, l) == 2 {
        assert forall|i: int| 0 <= i < n implies !#[trigger] elided(kinds, i) by {
            if kinds[i] != LabelLine::Plain && i != j {
                assert(is_use_of(kinds, i, l));
            }
        }
        lemma_kept_extends(lines, kinds, f, 0, n);
        assert(all.subrange(0, n) =~= all);
    }
    if uses(kinds, l) == 0 {
        assert forall|i: int| 0 <= i < n && i != j implies !#[trigger] elided(kinds, i) by {
            if kinds[i] != LabelLine::Plain {
                assert(is_use_of(kinds, i, l));
            }
        }
        lemma_kept_extends(lines, kinds, f, 0, j);
        assert(elided(kinds, j));
        assert(kept(lines, kinds, f, j + 1) == kept(lines, kinds, f, j));
        lemma_kept_extends(lines, kinds, f, j + 1, n);
        assert(all.subrange(0, j) =~= Seq::<Seq<u8>>::empty() + all.subrange(0, j));
    }
}

} // verus!
