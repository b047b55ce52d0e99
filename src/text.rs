//! Byte-level text helpers: decimal numerals and fixed ASCII text.
use vstd::prelude::*;
use vstd::string::StringSliceAdditionalSpecFns;

verus! {

/// The decimal numeral of `n`, as ASCII bytes, without leading zeros.
pub open spec fn decimal(n: nat) -> Seq<u8>
    decreases n,
{
    if n < 10 {
        seq![(48 + n) as u8]
    } else {
        decimal(n / 10).push((48 + n % 10) as u8)
    }
}

/// Appends the decimal numeral of `n` to `out`.
pub fn push_decimal(out: &mut Vec<u8>, n: u64)
    ensures
        final(out)@ == old(out)@ + decimal(n as nat),
    decreases n,
{
    if n >= 10 {
        push_decimal(out, n / 10);
    }
    out.push((48 + n % 10) as u8);
    proof {
        assert(old(out)@ + decimal(n as nat) =~= final(out)@);
    }
}

/// Appends the bytes of `s` to `out`.
pub fn push_str(out: &mut Vec<u8>, s: &str)
    ensures
        final(out)@ == old(out)@ + s.spec_bytes(),
{
    let bytes = s.as_bytes();
    let mut i: usize = 0;
    while i < bytes.len()
        invariant
            bytes@ == s.spec_bytes(),
            i <= bytes@.len(),
            out@ == old(out)@ + bytes@.subrange(0, i as int),
        decreases bytes@.len() - i,
    {
        out.push(bytes[i]);
        i += 1;
        proof {
            assert(out@ =~= old(out)@ + bytes@.subrange(0, i as int));
        }
    }
    proof {
        assert(bytes@.subrange(0, i as int) =~= bytes@);
    }
}

/// Appends `src[start..end]` to `out`.
pub fn push_range(out: &mut Vec<u8>, src: &Vec<u8>, start: usize, end: usize)
    requires
        start <= end <= src@.len(),
    ensures
        final(out)@ == old(out)@ + src@.subrange(start as int, end as int),
{
    let mut i: usize = start;
    while i < end
        invariant
            start <= i <= end <= src@.len(),
            out@ == old(out)@ + src@.subrange(start as int, i as int),
        decreases end - i,
    {
        out.push(src[i]);
        i += 1;
        proof {
            assert(out@ =~= old(out)@ + src@.subrange(start as int, i as int));
        }
    }
}

/// The lines of `lines` joined with line feeds between them.
pub open spec fn join_lines(lines: Seq<Seq<u8>>) -> Seq<u8>
    decreases lines.len(),
{
    if lines.len() == 0 {
        Seq::empty()
    } else if lines.len() == 1 {
        lines[0]
    } else {
        join_lines(lines.drop_last()) + seq![10u8] + lines.last()
    }
}

/// No line of `lines` holds a line feed.
pub open spec fn no_line_feeds(lines: Seq<Seq<u8>>) -> bool {
    forall|i: int, j: int| 0 <= i < lines.len() && 0 <= j < lines[i].len() ==> #[trigger] lines[i][j] != 10u8
}

/// The text of each line of `lines`.
pub open spec fn text_of(lines: Seq<Vec<u8>>) -> Seq<Seq<u8>> {
    lines.map_values(|l: Vec<u8>| l@)
}

/// The lines of `b`: the runs of bytes between its line feeds. There is
/// always one more line than there are line feeds.
pub open spec fn lines_of(b: Seq<u8>) -> Seq<Seq<u8>>
    decreases b.len(),
{
    if b.len() == 0 {
        seq![Seq::empty()]
    } else {
        let prev = lines_of(b.drop_last());
        if b.last() == 10u8 {
            prev.push(Seq::empty())
        } else {
            prev.drop_last().push(prev.last().push(b.last()))
        }
    }
}

proof fn lemma_lines_of_nonempty(b: Seq<u8>)
    ensures
        lines_of(b).len() >= 1,
    decreases b.len(),
{
    if b.len() > 0 {
        lemma_lines_of_nonempty(b.drop_last());
    }
}

/// Splits `b` at its line feeds: the lines, joined back with line feeds, give
/// `b`, and there is always at least one line.
pub fn split_lines(b: &Vec<u8>) -> (r: Vec<Vec<u8>>)
    ensures
        r@.len() >= 1,
        no_line_feeds(text_of(r@)),
        join_lines(text_of(r@)) == b@,
        text_of(r@) == lines_of(b@),
{
    let mut out: Vec<Vec<u8>> = Vec::new();
    let mut cur: Vec<u8> = Vec::new();
    let mut i: usize = 0;
    proof {
        assert(b@.subrange(0, 0) =~= Seq::<u8>::empty());
        assert(text_of(out@.push(cur)) =~= seq![Seq::<u8>::empty()]);
    }
    while i < b.len()
        invariant
            i <= b@.len(),
            no_line_feeds(text_of(out@.push(cur))),
            join_lines(text_of(out@.push(cur))) == b@.subrange(0, i as int),
            text_of(out@.push(cur)) == lines_of(b@.subrange(0, i as int)),
        decreases b@.len() - i,
    {
        let ghost lines = text_of(out@.push(cur));
        proof {
            assert(b@.subrange(0, i + 1).drop_last() =~= b@.subrange(0, i as int));
            lemma_lines_of_nonempty(b@.subrange(0, i as int));
        }
        if b[i] == 10u8 {
            out.push(cur);
            cur = Vec::new();
            proof {
                let next = text_of(out@.push(cur));
                assert(next.drop_last() =~= lines);
                assert(b@.subrange(0, i + 1) =~= b@.subrange(0, i as int) + seq![10u8]);
                assert(next.last() =~= Seq::<u8>::empty());
                assert(next =~= lines_of(b@.subrange(0, i + 1)));
                assert forall|x: int, y: int| 0 <= x < next.len() && 0 <= y < next[x].len() implies #[trigger] next[x][y] != 10u8 by {
                    assert(next[x] == lines[x]);
                }
            }
        } else {
            cur.push(b[i]);
            proof {
                let next = text_of(out@.push(cur));
                assert(next.drop_last() =~= lines.drop_last());
                assert(next.last() =~= lines.last().push(b@[i as int]));
                assert(b@.subrange(0, i + 1) =~= b@.subrange(0, i as int).push(b@[i as int]));
                assert(next =~= lines_of(b@.subrange(0, i + 1)));
                if lines.len() > 1 {
                    assert(join_lines(next) =~= join_lines(lines).push(b@[i as int]));
                }
                assert forall|x: int, y: int| 0 <= x < next.len() && 0 <= y < next[x].len() implies #[trigger] next[x][y] != 10u8 by {
                    if x < next.len() - 1 {
                        assert(next[x] == lines[x]);
                    } else if y < next[x].len() - 1 {
                        assert(next[x][y] == lines[x][y]);
                    }
                }
            }
        }
        i += 1;
    }
    out.push(cur);
    proof {
        assert(b@.subrange(0, b@.len() as int) =~= b@);
    }
    out
}

/// Whether `a` and `b` hold the same bytes.
pub fn str_eq(a: &str, b: &str) -> (r: bool)
    ensures
        r == (a.spec_bytes() == b.spec_bytes()),
{
    let x = a.as_bytes();
    let y = b.as_bytes();
    if x.len() != y.len() {
        return false;
    }
    let mut i: usize = 0;
    while i < x.len()
        invariant
            x@ == a.spec_bytes(),
            y@ == b.spec_bytes(),
            x@.len() == y@.len(),
            i <= x@.len(),
            forall|j: int| 0 <= j < i ==> x@[j] == y@[j],
        decreases x@.len() - i,
    {
        if x[i] != y[i] {
            return false;
        }
        i += 1;
    }
    proof {
        assert(x@ =~= y@);
    }
    true
}

} // verus!
