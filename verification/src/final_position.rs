//! The final position of a game as a record's annotation declares it and as
//! a rules engine renders it: nine board rows, the two hands, the side to
//! move.
//!
//! Both texts have the same shape. Nine lines, each opened by the letter P
//! and the number of its row, hold the board rows. A line that begins with `P+` lists the pieces that Black holds in
//! hand, a line that begins with `P-` those of White, each piece as four
//! bytes of which the last two are its token. The last line is `+` where Black
//! is to move and `-` where White is. In a record every line of the
//! annotation is a comment: it begins with an apostrophe.

use vstd::prelude::*;
use vstd::relations::sorted_by;
use vstd::slice::{slice_subrange, slice_to_vec};
use vstd::string::StringSliceAdditionalSpecFns;
use crate::piece::Side;
use crate::text::{lines, rows, split_lines};
use crate::token::{lemma_token_order_is_total, sort_tokens, token_leq, Token};

verus! {

/// `+`, the mark of Black.
pub const PLUS: u8 = 43;

/// `-`, the mark of White.
pub const MINUS: u8 = 45;

/// `P`, the first byte of a line that describes a position.
pub const LETTER_P: u8 = 80;

/// `1`, the number of the first board row.
pub const DIGIT_ONE: u8 = 49;

/// The apostrophe, the first byte of a comment line.
pub const APOSTROPHE: u8 = 39;

/// The final position of a game.
#[derive(Debug, PartialEq, Eq)]
pub struct FinalPosition {
    /// The nine board rows, each as the text gives it.
    pub board: Vec<Vec<u8>>,
    /// The tokens of the pieces in hand, Black's first and then White's, each
    /// hand sorted.
    pub hands: [Vec<Token>; 2],
    /// The side to move.
    pub color: Side,
}

/// What a `FinalPosition` holds.
pub struct FinalPositionView {
    pub board: Seq<Seq<u8>>,
    pub black_hand: Seq<Token>,
    pub white_hand: Seq<Token>,
    pub color: Side,
}

impl FinalPositionView {
    /// The board has nine rows and each hand is sorted.
    pub open spec fn well_formed(self) -> bool {
        &&& self.board.len() == 9
        &&& sorted_by(self.black_hand, token_leq())
        &&& sorted_by(self.white_hand, token_leq())
    }
}

impl View for FinalPosition {
    type V = FinalPositionView;

    open spec fn view(&self) -> FinalPositionView {
        FinalPositionView {
            board: rows(self.board@),
            black_hand: self.hands@[0]@,
            white_hand: self.hands@[1]@,
            color: self.color,
        }
    }
}

/// Whether a line lists the hand of the side with the given mark.
pub open spec fn is_hand_line(line: Seq<u8>, mark: u8) -> bool {
    line.len() >= 2 && line[0] == LETTER_P && line[1] == mark
}

/// The tokens of a hand line: after the two bytes that open the line, every
/// full group of four bytes gives one token, its last two bytes.
pub open spec fn hand_tokens(line: Seq<u8>) -> Seq<Token>
    recommends
        line.len() >= 2,
{
    Seq::new(
        ((line.len() - 2) / 4) as nat,
        |i: int| Token { first: line[4 * i + 4], second: line[4 * i + 5] },
    )
}

/// The tokens of all the hand lines with the given mark among `ls`, in the
/// order of the text.
pub open spec fn hand(ls: Seq<Seq<u8>>, mark: u8) -> Seq<Token>
    decreases ls.len(),
{
    if ls.len() == 0 {
        Seq::empty()
    } else if is_hand_line(ls.last(), mark) {
        hand(ls.drop_last(), mark) + hand_tokens(ls.last())
    } else {
        hand(ls.drop_last(), mark)
    }
}

/// The lines that count: those that are not empty.
pub open spec fn is_filled() -> spec_fn(Seq<u8>) -> bool {
    |line: Seq<u8>| line.len() > 0
}

/// The side that a last line names: Black for `+`, White for `-`.
pub open spec fn turn(line: Seq<u8>) -> Option<Side> {
    if line.len() == 1 && line[0] == PLUS {
        Some(Side::Black)
    } else if line.len() == 1 && line[0] == MINUS {
        Some(Side::White)
    } else {
        None
    }
}

/// The position that the lines `ls` describe, if they describe one: at least
/// nine of them are not empty, and the last of those names the side to move.
/// The board is the first nine lines that are not empty. Each hand is sorted.
pub open spec fn position_of(ls: Seq<Seq<u8>>) -> Option<FinalPositionView> {
    let filled = ls.filter(is_filled());
    if filled.len() < 9 {
        None
    } else {
        match turn(filled.last()) {
            None => None,
            Some(color) => Some(
                FinalPositionView {
                    board: filled.take(9),
                    black_hand: hand(ls, PLUS).sort_by(token_leq()),
                    white_hand: hand(ls, MINUS).sort_by(token_leq()),
                    color,
                },
            ),
        }
    }
}

/// Every position that lines describe is well formed, its board rows are not
/// empty, and each of its hands holds the tokens of that side's hand lines,
/// each as often as they list it.
pub proof fn described_position_is_well_formed(ls: Seq<Seq<u8>>)
    requires
        position_of(ls) is Some,
    ensures
        position_of(ls)->0.well_formed(),
        forall|i: int| 0 <= i < 9 ==> (#[trigger] position_of(ls)->0.board[i]).len() > 0,
        position_of(ls)->0.black_hand.to_multiset() == hand(ls, PLUS).to_multiset(),
        position_of(ls)->0.white_hand.to_multiset() == hand(ls, MINUS).to_multiset(),
{
    lemma_token_order_is_total();
    hand(ls, PLUS).lemma_sort_by_ensures(token_leq());
    hand(ls, MINUS).lemma_sort_by_ensures(token_leq());
    let filled = ls.filter(is_filled());
    assert forall|i: int| 0 <= i < 9 implies (#[trigger] filled.take(9)[i]).len() > 0 by {
        ls.lemma_filter_pred(is_filled(), i);
    }
}

/// The position that a rendering describes, if it describes one.
pub open spec fn final_position(text: Seq<u8>) -> Option<FinalPositionView> {
    position_of(lines(text))
}

/// Whether a line is a comment.
pub open spec fn is_comment(line: Seq<u8>) -> bool {
    line.len() >= 1 && line[0] == APOSTROPHE
}

/// Whether a line is the comment that opens an annotation: it begins with
/// an apostrophe, the letter P and the digit 1, which open the first board
/// row.
pub open spec fn opens_annotation(line: Seq<u8>) -> bool {
    line.len() >= 3 && line[0] == APOSTROPHE && line[1] == LETTER_P && line[2] == DIGIT_ONE
}

/// Whether a line is the comment that closes an annotation: `'+` or `'-`.
pub open spec fn closes_annotation(line: Seq<u8>) -> bool {
    line.len() == 2 && line[0] == APOSTROPHE && (line[1] == PLUS || line[1] == MINUS)
}

/// The index of the first line at or after `k` that opens an annotation.
pub open spec fn annotation_start(ls: Seq<Seq<u8>>, k: int) -> Option<int>
    decreases ls.len() - k,
{
    if k < 0 || k >= ls.len() {
        None
    } else if opens_annotation(ls[k]) {
        Some(k)
    } else {
        annotation_start(ls, k + 1)
    }
}

/// The index of the line that closes the run of comments that holds line `k`:
/// the first closing comment at or after `k` with nothing but comments before
/// it. There is none where a line that is no comment, or the end of the text,
/// comes first.
pub open spec fn annotation_end(ls: Seq<Seq<u8>>, k: int) -> Option<int>
    decreases ls.len() - k,
{
    if k < 0 || k >= ls.len() || !is_comment(ls[k]) {
        None
    } else if closes_annotation(ls[k]) {
        Some(k)
    } else {
        annotation_end(ls, k + 1)
    }
}

/// The lines from `lo` up to `hi`, each without its first `skip` bytes.
pub open spec fn cut(ls: Seq<Seq<u8>>, lo: int, hi: int, skip: int) -> Seq<Seq<u8>> {
    Seq::new((hi - lo) as nat, |k: int| ls[lo + k].skip(skip))
}

/// The position that a record's annotation declares, if the record has an
/// annotation in order.
///
/// The annotation begins at the first line of the record that is the comment
/// of a first board row, and runs, comment after comment, up to the first
/// `'+` or `'-`. Its lines, each without the apostrophe, describe the
/// position.
pub open spec fn expected_position(text: Seq<u8>) -> Option<FinalPositionView> {
    let ls = lines(text);
    match annotation_start(ls, 0) {
        None => None,
        Some(i) => match annotation_end(ls, i) {
            None => None,
            Some(j) => position_of(cut(ls, i, j + 1, 1)),
        },
    }
}

/// Reads the position that the lines from `lo` up to `hi` describe, each
/// taken without its first `skip` bytes.
fn read_position(ls: &Vec<Vec<u8>>, lo: usize, hi: usize, skip: usize) -> (r: Option<
    FinalPosition,
>)
    requires
        lo <= hi <= ls.len(),
        forall|k: int| lo <= k < hi ==> ls@[k].len() >= skip,
    ensures
        r matches Some(p) ==> Some(p@) == position_of(
            cut(rows(ls@), lo as int, hi as int, skip as int),
        ),
        r is None ==> position_of(cut(rows(ls@), lo as int, hi as int, skip as int)) is None,
{
    let ghost all = cut(rows(ls@), lo as int, hi as int, skip as int);
    let mut board: Vec<Vec<u8>> = Vec::new();
    let mut black: Vec<Token> = Vec::new();
    let mut white: Vec<Token> = Vec::new();
    let mut filled: usize = 0;
    let mut last: usize = lo;
    let mut k: usize = lo;
    proof {
        reveal(Seq::filter);
        assert(all.take(0) == Seq::<Seq<u8>>::empty());
        assert(rows(board@) == Seq::<Seq<u8>>::empty());
    }
    while k < hi
        invariant
            lo <= k <= hi <= ls.len(),
            all == cut(rows(ls@), lo as int, hi as int, skip as int),
            forall|k: int| lo <= k < hi ==> ls@[k].len() >= skip,
            filled == all.take(k - lo).filter(is_filled()).len(),
            filled <= k - lo,
            rows(board@) == (if filled <= 9 {
                all.take(k - lo).filter(is_filled())
            } else {
                all.take(k - lo).filter(is_filled()).take(9)
            }),
            filled > 0 ==> lo <= last < k && all[last - lo] == all.take(k - lo).filter(
                is_filled(),
            ).last(),
            black@ == hand(all.take(k - lo), PLUS),
            white@ == hand(all.take(k - lo), MINUS),
        decreases hi - k,
    {
        let line = slice_subrange(ls[k].as_slice(), skip, ls[k].len());
        let ghost before = all.take(k - lo);
        let ghost after = all.take(k - lo + 1);
        proof {
            reveal(Seq::filter);
            assert(line@ == all[k - lo]);
            assert(after.drop_last() == before);
            assert(after.last() == line@);
        }
        let n = line.len();
        if n > 0 {
            if filled < 9 {
                let row = slice_to_vec(line);
                proof {
                    assert(rows(board@.push(row)) == rows(board@).push(row@));
                }
                board.push(row);
            } else {
                proof {
                    let f = before.filter(is_filled());
                    assert(f.push(line@).take(9) == f.take(9));
                }
            }
            filled += 1;
            last = k;
        }
        if n >= 2 && line[0] == LETTER_P && (line[1] == PLUS || line[1] == MINUS) {
            let count = (n - 2) / 4;
            let mut i: usize = 0;
            let ghost black_before = black@;
            let ghost white_before = white@;
            while i < count
                invariant
                    i <= count,
                    count == (n - 2) / 4,
                    n == line@.len(),
                    n >= 2,
                    line@[1] == PLUS || line@[1] == MINUS,
                    black@ == (if line@[1] == PLUS {
                        black_before + hand_tokens(line@).take(i as int)
                    } else {
                        black_before
                    }),
                    white@ == (if line@[1] == MINUS {
                        white_before + hand_tokens(line@).take(i as int)
                    } else {
                        white_before
                    }),
                decreases count - i,
            {
                let token = Token { first: line[4 * i + 4], second: line[4 * i + 5] };
                proof {
                    let tokens = hand_tokens(line@);
                    assert(tokens.take(i + 1) == tokens.take(i as int).push(token));
                }
                if line[1] == PLUS {
                    proof {
                        let tokens = hand_tokens(line@);
                        assert(black_before + tokens.take(i as int).push(token) == (black_before
                            + tokens.take(i as int)).push(token));
                    }
                    black.push(token);
                } else {
                    proof {
                        let tokens = hand_tokens(line@);
                        assert(white_before + tokens.take(i as int).push(token) == (white_before
                            + tokens.take(i as int)).push(token));
                    }
                    white.push(token);
                }
                i += 1;
            }
            proof {
                assert(hand_tokens(line@).take(count as int) == hand_tokens(line@));
            }
        }
        k += 1;
    }
    proof {
        assert(all.take(hi - lo) == all);
    }
    if filled < 9 {
        return None;
    }
    let closing = slice_subrange(ls[last].as_slice(), skip, ls[last].len());
    let color = if closing.len() == 1 && closing[0] == PLUS {
        Side::Black
    } else if closing.len() == 1 && closing[0] == MINUS {
        Side::White
    } else {
        return None;
    };
    let black = sort_tokens(&black);
    let white = sort_tokens(&white);
    let p = FinalPosition { board, hands: [black, white], color };
    proof {
        let f = all.filter(is_filled());
        assert(f.take(f.len() as int) == f);
        assert(p.hands@[0] == black);
        assert(p.hands@[1] == white);
    }
    Some(p)
}

impl FinalPosition {
    /// Reads a final position from the text that describes it.
    ///
    /// It returns `None` where fewer than nine lines are not empty, or where
    /// the last line that is not empty is neither `+` nor `-`.
    pub fn from(text: &str) -> (r: Option<FinalPosition>)
        ensures
            r matches Some(p) ==> Some(p@) == final_position(text.spec_bytes()) && p@.well_formed(),
            r is None ==> final_position(text.spec_bytes()) is None,
    {
        let ls = split_lines(text.as_bytes());
        proof {
            assert(cut(rows(ls@), 0, ls.len() as int, 0) == rows(ls@)) by {
                assert forall|k: int| 0 <= k < ls.len() implies (#[trigger] rows(ls@)[k]).skip(0)
                    == rows(ls@)[k] by {}
            }
            if final_position(text.spec_bytes()) is Some {
                described_position_is_well_formed(lines(text.spec_bytes()));
            }
        }
        read_position(&ls, 0, ls.len(), 0)
    }
}

/// Reads the final position that a record's annotation declares.
///
/// It returns `None` where the record has no comment of the first board row,
/// where the comments that follow that line end before a `'+` or `'-`, and
/// where the annotation does not describe a position.
pub fn parse_result(s: &str) -> (r: Option<FinalPosition>)
    ensures
        r matches Some(p) ==> Some(p@) == expected_position(s.spec_bytes()) && p@.well_formed(),
        r is None ==> expected_position(s.spec_bytes()) is None,
{
    let ls = split_lines(s.as_bytes());
    let n = ls.len();
    let mut i: usize = 0;
    while i < n && !(ls[i].len() >= 3 && ls[i][0] == APOSTROPHE && ls[i][1] == LETTER_P
        && ls[i][2] == DIGIT_ONE)
        invariant
            i <= n == ls.len(),
            annotation_start(rows(ls@), 0) == annotation_start(rows(ls@), i as int),
        decreases n - i,
    {
        i += 1;
    }
    if i >= n {
        return None;
    }
    let mut j: usize = i;
    while j < n && ls[j].len() >= 1 && ls[j][0] == APOSTROPHE && !(ls[j].len() == 2 && (ls[j][1]
        == PLUS || ls[j][1] == MINUS))
        invariant
            i <= j <= n == ls.len(),
            annotation_end(rows(ls@), i as int) == annotation_end(rows(ls@), j as int),
            forall|k: int| i <= k < j ==> ls@[k].len() >= 1,
        decreases n - j,
    {
        j += 1;
    }
    if j >= n || !(ls[j].len() >= 1 && ls[j][0] == APOSTROPHE) {
        return None;
    }
    proof {
        let block = cut(rows(ls@), i as int, j + 1, 1);
        if position_of(block) is Some {
            described_position_is_well_formed(block);
        }
    }
    read_position(&ls, i, j + 1, 1)
}

} // verus!
