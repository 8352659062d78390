//! The comparison of the position reached with the position expected.

use vstd::prelude::*;
use crate::final_position::{FinalPosition, FinalPositionView};
use crate::text::rows;
use crate::token::Token;

verus! {

/// The facets in which two final positions differ.
#[derive(Clone, Copy, Debug, PartialEq, Eq, Structural)]
pub struct Mismatch {
    /// The board rows differ.
    pub board: bool,
    /// A hand differs.
    pub hands: bool,
    /// The side to move differs.
    pub color: bool,
}

/// The facets in which `expected` and `reached` differ.
pub open spec fn differences(expected: FinalPositionView, reached: FinalPositionView) -> Mismatch {
    Mismatch {
        board: expected.board != reached.board,
        hands: expected.black_hand != reached.black_hand || expected.white_hand
            != reached.white_hand,
        color: expected.color != reached.color,
    }
}

/// Two final positions are equal exactly when they differ in no facet.
pub proof fn equal_positions_differ_in_nothing(
    expected: FinalPositionView,
    reached: FinalPositionView,
)
    ensures
        expected == reached <==> differences(expected, reached) == (Mismatch {
            board: false,
            hands: false,
            color: false,
        }),
{
}

/// Whether two byte strings are equal.
fn same_bytes(a: &Vec<u8>, b: &Vec<u8>) -> (r: bool)
    ensures
        r == (a@ == b@),
{
    if a.len() != b.len() {
        return false;
    }
    let mut i: usize = 0;
    while i < a.len()
        invariant
            i <= a.len() == b.len(),
            forall|k: int| 0 <= k < i ==> a@[k] == b@[k],
        decreases a.len() - i,
    {
        if a[i] != b[i] {
            return false;
        }
        i += 1;
    }
    assert(a@ =~= b@);
    true
}

/// Whether two lists of rows are equal, row by row.
fn same_rows(a: &Vec<Vec<u8>>, b: &Vec<Vec<u8>>) -> (r: bool)
    ensures
        r == (rows(a@) == rows(b@)),
{
    if a.len() != b.len() {
        assert(rows(a@).len() != rows(b@).len());
        return false;
    }
    let mut i: usize = 0;
    while i < a.len()
        invariant
            i <= a.len() == b.len(),
            forall|k: int| 0 <= k < i ==> a@[k]@ == b@[k]@,
        decreases a.len() - i,
    {
        if !same_bytes(&a[i], &b[i]) {
            assert(rows(a@)[i as int] != rows(b@)[i as int]);
            return false;
        }
        i += 1;
    }
    assert(rows(a@) =~= rows(b@));
    true
}

/// Whether two hands hold the same tokens in the same order.
fn same_tokens(a: &Vec<Token>, b: &Vec<Token>) -> (r: bool)
    ensures
        r == (a@ == b@),
{
    if a.len() != b.len() {
        return false;
    }
    let mut i: usize = 0;
    while i < a.len()
        invariant
            i <= a.len() == b.len(),
            forall|k: int| 0 <= k < i ==> a@[k] == b@[k],
        decreases a.len() - i,
    {
        if a[i] != b[i] {
            return false;
        }
        i += 1;
    }
    assert(a@ =~= b@);
    true
}

/// Compares the position reached with the position expected: the board rows
/// line for line, each hand token for token, and the side to move. Where
/// they differ it says in which facets.
pub fn compare(expected: &FinalPosition, reached: &FinalPosition) -> (r: Result<(), Mismatch>)
    ensures
        r is Ok <==> expected@ == reached@,
        r matches Err(m) ==> m == differences(expected@, reached@),
{
    let board = !same_rows(&expected.board, &reached.board);
    let hands = !same_tokens(&expected.hands[0], &reached.hands[0]) || !same_tokens(
        &expected.hands[1],
        &reached.hands[1],
    );
    let color = expected.color != reached.color;
    if board || hands || color {
        Err(Mismatch { board, hands, color })
    } else {
        Ok(())
    }
}

} // verus!
