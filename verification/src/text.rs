//! Text as bytes, cut into lines at line feeds.

use vstd::prelude::*;
use vstd::slice::{slice_subrange, slice_to_vec};

verus! {

/// The line feed.
pub const LINE_FEED: u8 = 10;

/// The number of bytes before the first line feed of `s`, or the length of
/// `s` where it holds none.
pub open spec fn first_line_len(s: Seq<u8>) -> nat
    decreases s.len(),
{
    if s.len() == 0 || s[0] == LINE_FEED {
        0
    } else {
        1 + first_line_len(s.skip(1))
    }
}

/// The lines of `s`: the stretches between its line feeds, in order, without
/// the line feeds. A text with `n` line feeds has `n + 1` lines, some of them
/// perhaps empty; the empty text has one empty line.
pub open spec fn lines(s: Seq<u8>) -> Seq<Seq<u8>>
    decreases s.len(),
{
    let n = first_line_len(s) as int;
    if n >= s.len() {
        seq![s]
    } else {
        seq![s.take(n)] + lines(s.skip(n + 1))
    }
}

/// The views of a vector of byte vectors.
pub open spec fn rows(v: Seq<Vec<u8>>) -> Seq<Seq<u8>> {
    Seq::new(v.len(), |i: int| v[i]@)
}

/// The first line of `s` ends at `k` where no byte before `k` is a line feed
/// and `k` is the end of `s` or the place of a line feed.
pub proof fn lemma_first_line_len(s: Seq<u8>, k: int)
    requires
        0 <= k <= s.len(),
        forall|j: int| 0 <= j < k ==> s[j] != LINE_FEED,
        k == s.len() || s[k] == LINE_FEED,
    ensures
        first_line_len(s) == k,
    decreases k,
{
    if k > 0 {
        let t = s.skip(1);
        assert forall|j: int| 0 <= j < k - 1 implies t[j] != LINE_FEED by {
            assert(t[j] == s[j + 1]);
        }
        lemma_first_line_len(t, k - 1);
    }
}

/// Cuts `text` into its lines.
pub fn split_lines(text: &[u8]) -> (out: Vec<Vec<u8>>)
    ensures
        rows(out@) == lines(text@),
{
    let n = text.len();
    let mut out: Vec<Vec<u8>> = Vec::new();
    let mut start: usize = 0;
    let mut i: usize = 0;
    assert(text@.skip(0) == text@);
    assert(rows(out@) + lines(text@.skip(0)) == lines(text@));
    while i < n
        invariant
            n == text@.len(),
            0 <= start <= i <= n,
            forall|j: int| start <= j < i ==> text@[j] != LINE_FEED,
            rows(out@) + lines(text@.skip(start as int)) == lines(text@),
        decreases n - i,
    {
        if text[i] == LINE_FEED {
            let line = slice_to_vec(slice_subrange(text, start, i));
            proof {
                let rest = text@.skip(start as int);
                assert forall|j: int| 0 <= j < i - start implies rest[j] != LINE_FEED by {
                    assert(rest[j] == text@[start + j]);
                }
                lemma_first_line_len(rest, i - start);
                assert(rest.take(i - start) == text@.subrange(start as int, i as int));
                assert(rest.skip(i - start + 1) == text@.skip(i + 1));
                assert(lines(rest) == seq![line@] + lines(text@.skip(i + 1)));
                assert(rows(out@.push(line)) == rows(out@) + seq![line@]);
            }
            out.push(line);
            start = i + 1;
        }
        i += 1;
    }
    let line = slice_to_vec(slice_subrange(text, start, n));
    proof {
        let rest = text@.skip(start as int);
        assert forall|j: int| 0 <= j < n - start implies rest[j] != LINE_FEED by {
            assert(rest[j] == text@[start + j]);
        }
        lemma_first_line_len(rest, n - start);
        assert(rest == text@.subrange(start as int, n as int));
        assert(lines(rest) == seq![rest]);
        assert(rows(out@.push(line)) == rows(out@) + seq![line@]);
    }
    out.push(line);
    out
}

} // verus!
