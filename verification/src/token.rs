//! The two-letter tokens that name captured pieces, and their order.

use vstd::prelude::*;
use vstd::relations::{sorted_by, total_ordering};
use vstd::seq_lib::lemma_sorted_unique;

verus! {

/// The two bytes that name a captured piece in a position's text, such as
/// `FU`.
#[derive(Clone, Copy, Debug, PartialEq, Eq, Structural)]
pub struct Token {
    pub first: u8,
    pub second: u8,
}

impl Token {
    /// The place of the token in the order of tokens: tokens are ordered as
    /// their two-byte texts are, byte by byte.
    pub open spec fn code(self) -> int {
        self.first * 256 + self.second
    }

    /// Whether `self` comes strictly before `other`.
    pub fn precedes(&self, other: &Token) -> (r: bool)
        ensures
            r == (self.code() < other.code()),
    {
        self.first < other.first || (self.first == other.first && self.second < other.second)
    }
}

/// The order of tokens, as a relation: `a` comes before `b` or is `b`.
pub open spec fn token_leq() -> spec_fn(Token, Token) -> bool {
    |a: Token, b: Token| a.code() <= b.code()
}

/// The order of tokens is a total order.
pub proof fn lemma_token_order_is_total()
    ensures
        total_ordering(token_leq()),
{
    let leq = token_leq();
    assert forall|a: Token, b: Token| #[trigger] leq(a, b) && leq(b, a) implies a == b by {
        assert(a.code() == b.code());
        assert(a.first == b.first && a.second == b.second);
    }
    assert(vstd::relations::reflexive(leq));
    assert(vstd::relations::antisymmetric(leq));
    assert(vstd::relations::transitive(leq));
    assert(vstd::relations::strongly_connected(leq));
}

/// Two sorted sequences of tokens that hold the same tokens, each as often as
/// the other, are equal: sorting makes the order in which captured pieces
/// were listed immaterial.
pub proof fn sorted_hands_are_equal(a: Seq<Token>, b: Seq<Token>)
    requires
        a.to_multiset() == b.to_multiset(),
    ensures
        a.sort_by(token_leq()) == b.sort_by(token_leq()),
{
    lemma_token_order_is_total();
    a.lemma_sort_by_ensures(token_leq());
    b.lemma_sort_by_ensures(token_leq());
    lemma_sorted_unique(a.sort_by(token_leq()), b.sort_by(token_leq()), token_leq());
}

/// Inserting `t` at `j` adds one `t` to what the sequence holds.
proof fn lemma_insert_to_multiset(s: Seq<Token>, j: int, t: Token)
    requires
        0 <= j <= s.len(),
    ensures
        s.insert(j, t).to_multiset() == s.to_multiset().insert(t),
{
    broadcast use vstd::multiset::group_multiset_axioms;

    let u = s.insert(j, t);
    assert(u[j] == t);
    assert(u.remove(j) == s);
    u.to_multiset_ensures();
    assert(u.to_multiset().remove(t) == s.to_multiset());
    assert(u.contains(t));
    assert(u.to_multiset().count(t) > 0);
    assert(u.to_multiset() =~= s.to_multiset().insert(t));
}

/// Sorts tokens into their order.
pub fn sort_tokens(tokens: &Vec<Token>) -> (out: Vec<Token>)
    ensures
        out@ == tokens@.sort_by(token_leq()),
        sorted_by(out@, token_leq()),
        out@.to_multiset() == tokens@.to_multiset(),
{
    let mut out: Vec<Token> = Vec::new();
    let mut i: usize = 0;
    assert(tokens@.take(0) == Seq::<Token>::empty());
    while i < tokens.len()
        invariant
            i <= tokens.len(),
            sorted_by(out@, token_leq()),
            out@.to_multiset() == tokens@.take(i as int).to_multiset(),
        decreases tokens.len() - i,
    {
        let t = tokens[i];
        let mut j: usize = 0;
        while j < out.len() && !t.precedes(&out[j])
            invariant
                j <= out.len(),
                forall|k: int| 0 <= k < j ==> out@[k].code() <= t.code(),
            decreases out.len() - j,
        {
            j += 1;
        }
        proof {
            let before = out@;
            let after = before.insert(j as int, t);
            before.insert_ensures(j as int, t);
            assert forall|x: int, y: int| 0 <= x < y < after.len() implies #[trigger] token_leq()(
                after[x],
                after[y],
            ) by {
                if y < j {
                    assert(token_leq()(before[x], before[y]));
                } else if y == j {
                } else if x < j {
                    assert(after[y] == before[y - 1]);
                    if j < y - 1 {
                        assert(token_leq()(before[j as int], before[y - 1]));
                    }
                } else if x == j {
                    assert(after[y] == before[y - 1]);
                    if j < y - 1 {
                        assert(token_leq()(before[j as int], before[y - 1]));
                    }
                } else {
                    assert(after[x] == before[x - 1]);
                    assert(after[y] == before[y - 1]);
                    assert(token_leq()(before[x - 1], before[y - 1]));
                }
            }
            lemma_insert_to_multiset(before, j as int, t);
            assert(tokens@.take(i + 1) == tokens@.take(i as int).push(t));
            tokens@.take(i as int).to_multiset_ensures();
        }
        out.insert(j, t);
        i += 1;
    }
    proof {
        assert(tokens@.take(tokens.len() as int) == tokens@);
        lemma_token_order_is_total();
        tokens@.lemma_sort_by_ensures(token_leq());
        lemma_sorted_unique(out@, tokens@.sort_by(token_leq()), token_leq());
    }
    out
}

} // verus!
