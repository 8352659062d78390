//! The record parser of the `csa` crate: the values that a parsed record is
//! made of, the parser itself, and the texts that it is not given.
//!
//! The four value types below are declared with their variants and fields, so
//! that verified code matches on them directly.

use vstd::prelude::*;
use vstd::string::StringSliceAdditionalSpecFns;
use crate::text::LINE_FEED;

verus! {

/// `csa::Color`: the side that an action belongs to.
#[verifier::external_type_specification]
pub struct ExColor(csa::Color);

/// `csa::Square`: a file and a rank as the record writes them, two digits
/// from 0 to 9. File 0 with rank 0 stands for a piece in hand.
#[verifier::external_type_specification]
pub struct ExSquare(csa::Square);

/// `csa::PieceType`: the fourteen piece kinds and `All`, which a record uses
/// only when it lists the pieces left over.
#[verifier::external_type_specification]
pub struct ExPieceType(csa::PieceType);

/// `csa::Action`: one event of a record's move list, a move or one of the
/// events that end a game.
#[verifier::external_type_specification]
pub struct ExAction(csa::Action);

/// `csa::CsaError`: the record parser's error. It says no more than that the
/// text is no record.
#[verifier::external_type_specification]
#[verifier::external_body]
pub struct ExCsaError(csa::CsaError);

/// `T`, which opens the line that gives the time a move took.
pub const LETTER_T: u8 = 84;

/// `/`, which parts year, month and day.
pub const SLASH: u8 = 47;

/// `+`, which may stand before a number.
pub const SIGN: u8 = 43;

/// `:`, which parts an attribute's name from its value.
pub const COLON: u8 = 58;

/// The comma, which parts two statements on one line.
pub const COMMA: u8 = 44;

/// The carriage return.
pub const CARRIAGE_RETURN: u8 = 13;

/// `0`, the first of the ten digits.
pub const DIGIT_ZERO: u8 = 48;

/// The most digits that a move's time may have.
pub const TIME_DIGITS: usize = 19;

/// Whether a byte is one of the ten digits.
pub open spec fn is_digit(b: u8) -> bool {
    DIGIT_ZERO <= b <= DIGIT_ZERO + 9
}

/// The number that the `n` digits from `p` on write.
pub open spec fn number(s: Seq<u8>, p: int, n: nat) -> int
    decreases n,
{
    if n == 0 {
        0
    } else {
        number(s, p, (n - 1) as nat) * 10 + (s[p + n - 1] - DIGIT_ZERO)
    }
}

/// Whether the `n` bytes from `p` on lie within `s` and are digits.
pub open spec fn digits_at(s: Seq<u8>, p: int, n: int) -> bool {
    0 <= p && p + n <= s.len() && forall|q: int| p <= q < p + n ==> is_digit(#[trigger] s[q])
}

/// Whether a byte parts two statements of a record: a line feed, a carriage
/// return or a comma.
pub open spec fn is_separator(b: u8) -> bool {
    b == LINE_FEED || b == CARRIAGE_RETURN || b == COMMA
}

/// Whether a `T` stands at `p`, behind a separator, with more than
/// `TIME_DIGITS` digits behind it. Nineteen digits always write a number
/// below 2 to the 64th.
pub open spec fn long_time_at(s: Seq<u8>, p: int) -> bool {
    1 <= p < s.len() && is_separator(s[p - 1]) && s[p] == LETTER_T && digits_at(
        s,
        p + 1,
        TIME_DIGITS + 1,
    )
}

/// Whether a year is a leap year.
pub open spec fn is_leap(year: int) -> bool {
    year % 4 == 0 && (year % 100 != 0 || year % 400 == 0)
}

/// Whether the two bytes from `p` on may be read as a month.
pub open spec fn names_month(s: Seq<u8>, p: int) -> bool {
    ||| digits_at(s, p, 2) && 1 <= number(s, p, 2) <= 12
    ||| 0 <= p && p + 2 <= s.len() && s[p] == SIGN && is_digit(s[p + 1]) && s[p + 1]
        != DIGIT_ZERO
}

/// Whether the month of the ten bytes from `p` on, read as year, month and
/// day, is known to have the day, for a day from the 29th to the 31st: the
/// month is written in two digits, and it has 31 days, or 30 and the day is
/// not the 31st, or it is the February of a leap year written in four digits
/// and the day is the 29th.
pub open spec fn month_has_late_day(s: Seq<u8>, p: int) -> bool {
    let month = number(s, p + 5, 2);
    let day = number(s, p + 8, 2);
    digits_at(s, p + 5, 2) && digits_at(s, p + 8, 2) && {
        ||| month == 1 || month == 3 || month == 5 || month == 7 || month == 8 || month == 10
            || month == 12
        ||| (month == 4 || month == 6 || month == 9 || month == 11) && day <= 30
        ||| month == 2 && day <= 29 && digits_at(s, p, 4) && is_leap(number(s, p, 4))
    }
}

/// Whether the ten bytes from `p` on stand behind a colon and have the shape
/// of a date, four bytes, two and two with slashes between, whose day is the
/// 29th, 30th or 31st and whose month is not known to have that day.
pub open spec fn bad_date_at(s: Seq<u8>, p: int) -> bool {
    &&& 1 <= p && p + 10 <= s.len()
    &&& s[p - 1] == COLON
    &&& s[p + 4] == SLASH && s[p + 7] == SLASH
    &&& digits_at(s, p + 8, 2) && 29 <= number(s, p + 8, 2) <= 31
    &&& names_month(s, p + 5)
    &&& !month_has_late_day(s, p)
}

/// Whether a text can be handed to the record parser.
///
/// The parser panics in two places. Behind the colon of an attribute it
/// reads a value of the shape `YYYY/MM/DD` as a date, and panics where the
/// month lacks the day. Behind a separator it reads a `T` and the digits that
/// follow as the seconds that a move took, and panics where that number does
/// not fit 64 bits, for which it takes twenty digits at least. A text is safe
/// where nothing in it has the shape of either, whether the parser would come
/// to read it or not.
pub open spec fn parser_safe(s: Seq<u8>) -> bool {
    forall|p: int| 0 <= p < s.len() ==> !long_time_at(s, p) && !bad_date_at(s, p)
}

/// Whether `text[p]` is a digit; `false` beyond the end of the text.
fn digit_at(text: &[u8], p: usize) -> (r: bool)
    ensures
        r == (p < text@.len() && is_digit(text@[p as int])),
{
    p < text.len() && DIGIT_ZERO <= text[p] && text[p] <= DIGIT_ZERO + 9
}

/// Whether the two bytes from `p` on are digits, and the number they write.
fn two_digits(text: &[u8], p: usize) -> (r: Option<u8>)
    requires
        p + 2 <= usize::MAX,
    ensures
        r is Some <==> digits_at(text@, p as int, 2),
        r matches Some(n) ==> n == number(text@, p as int, 2),
{
    if digit_at(text, p) && digit_at(text, p + 1) {
        proof {
            reveal_with_fuel(number, 3);
        }
        Some((text[p] - DIGIT_ZERO) * 10 + (text[p + 1] - DIGIT_ZERO))
    } else {
        proof {
            if digits_at(text@, p as int, 2) {
                assert(is_digit(text@[p as int]));
                assert(is_digit(text@[p + 1]));
            }
        }
        None
    }
}

/// Whether a time too long stands at `p`.
fn is_long_time(text: &[u8], p: usize) -> (r: bool)
    requires
        p < text@.len(),
    ensures
        r == long_time_at(text@, p as int),
{
    if p < 1 || text[p] != LETTER_T || text.len() - p <= TIME_DIGITS + 1 {
        return false;
    }
    let before = text[p - 1];
    if before != LINE_FEED && before != CARRIAGE_RETURN && before != COMMA {
        return false;
    }
    let end: usize = p + 1 + TIME_DIGITS + 1;
    let mut q: usize = p + 1;
    while q < end
        invariant
            p + 1 <= q <= end == p + 1 + TIME_DIGITS + 1 <= text@.len(),
            forall|k: int| p + 1 <= k < q ==> is_digit(#[trigger] text@[k]),
        decreases end - q,
    {
        if !digit_at(text, q) {
            return false;
        }
        q += 1;
    }
    true
}

/// Whether a date whose month lacks its day stands at `p`.
fn is_bad_date(text: &[u8], p: usize) -> (r: bool)
    requires
        p < text@.len(),
    ensures
        r == bad_date_at(text@, p as int),
{
    if p < 1 || text.len() - p < 10 || text[p - 1] != COLON || text[p + 4] != SLASH || text[p
        + 7] != SLASH {
        return false;
    }
    let day = match two_digits(text, p + 8) {
        Some(day) => day,
        None => {
            return false;
        },
    };
    if day < 29 || day > 31 {
        return false;
    }
    let month = match two_digits(text, p + 5) {
        Some(month) => month,
        None => {
            return text[p + 5] == SIGN && digit_at(text, p + 6) && text[p + 6] != DIGIT_ZERO;
        },
    };
    if month < 1 || month > 12 {
        return false;
    }
    if month == 4 || month == 6 || month == 9 || month == 11 {
        return day > 30;
    }
    if month != 2 {
        return false;
    }
    if day > 29 {
        return true;
    }
    let century = two_digits(text, p);
    let years = two_digits(text, p + 2);
    match (century, years) {
        (Some(century), Some(years)) => {
            proof {
                reveal_with_fuel(number, 5);
                assert(number(text@, p as int, 4) == century * 100 + years);
                assert(digits_at(text@, p as int, 4)) by {
                    assert(is_digit(text@[p as int]));
                    assert(is_digit(text@[p + 1]));
                    assert(is_digit(text@[p + 2]));
                    assert(is_digit(text@[p + 3]));
                }
            }
            let year: u32 = century as u32 * 100 + years as u32;
            !(year % 4 == 0 && (year % 100 != 0 || year % 400 == 0))
        },
        _ => {
            proof {
                if digits_at(text@, p as int, 4) {
                    assert(is_digit(text@[p as int]));
                    assert(is_digit(text@[p + 1]));
                    assert(is_digit(text@[p + 2]));
                    assert(is_digit(text@[p + 3]));
                }
            }
            true
        },
    }
}

/// Whether a text can be handed to the record parser.
pub fn is_parser_safe(text: &[u8]) -> (r: bool)
    ensures
        r == parser_safe(text@),
{
    let mut p: usize = 0;
    while p < text.len()
        invariant
            p <= text@.len(),
            forall|k: int| 0 <= k < p ==> !long_time_at(text@, k) && !bad_date_at(text@, k),
        decreases text@.len() - p,
    {
        if is_long_time(text, p) || is_bad_date(text, p) {
            return false;
        }
        p += 1;
    }
    true
}

/// The actions that the record parser reads from a text, or `None` where it
/// takes the text for no record. The parser reads bytes and nothing else, so
/// the same text always gives the same actions.
pub uninterp spec fn parsed_moves(text: Seq<char>) -> Option<Seq<csa::Action>>;

/// `csa::parse_csa`, for the actions of the record's move list, in order and
/// without the times. Trusted: that the result is a function of the text
/// alone, and that the parser returns on every text that is `parser_safe`.
#[verifier::external_body]
pub(crate) fn parse_moves(text: &str) -> (r: Result<Vec<csa::Action>, csa::CsaError>)
    requires
        parser_safe(text.spec_bytes()),
    ensures
        r matches Ok(actions) ==> parsed_moves(text@) == Some(actions@),
        r is Err ==> parsed_moves(text@) is None,
{
    match csa::parse_csa(text) {
        Ok(record) => Ok(record.moves.iter().map(|m| m.action).collect()),
        Err(e) => Err(e),
    }
}

} // verus!
