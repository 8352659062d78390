//! Translation of a record's actions into engine moves.
//!
//! A record writes a move as the side, the origin square, the destination
//! square and the kind of the piece *after* the move. It has no promotion
//! flag: a move promotes exactly when the piece standing on the origin square
//! is not the piece that the record names.

use vstd::prelude::*;
use crate::piece::{BoardSquare, Move, Piece, PieceKind, Side};

verus! {

/// Why a move action has no engine move.
#[derive(Clone, Copy, Debug, PartialEq, Eq, Structural)]
pub enum Untranslatable {
    /// The destination is not a square of the board.
    Destination,
    /// The piece kind is `All`, which names no piece.
    Kind,
    /// The origin is neither a square of the board nor the mark of a drop.
    Origin,
}

/// The side that a record's colour stands for.
pub open spec fn side_of(c: csa::Color) -> Side {
    match c {
        csa::Color::Black => Side::Black,
        csa::Color::White => Side::White,
    }
}

/// The board square that a record's square stands for, if it is one.
pub open spec fn square_of(sq: csa::Square) -> Option<BoardSquare> {
    if 1 <= sq.file <= 9 && 1 <= sq.rank <= 9 {
        Some(BoardSquare { file: sq.file, rank: sq.rank })
    } else {
        None
    }
}

/// Whether a record's square is the mark of a drop: file 0, rank 0.
pub open spec fn is_hand(sq: csa::Square) -> bool {
    sq.file == 0 && sq.rank == 0
}

/// The piece kind that a record's piece type stands for. `All` stands for
/// none.
pub open spec fn kind_of(pt: csa::PieceType) -> Option<PieceKind> {
    match pt {
        csa::PieceType::Pawn => Some(PieceKind::FU),
        csa::PieceType::Lance => Some(PieceKind::KY),
        csa::PieceType::Knight => Some(PieceKind::KE),
        csa::PieceType::Silver => Some(PieceKind::GI),
        csa::PieceType::Gold => Some(PieceKind::KI),
        csa::PieceType::Bishop => Some(PieceKind::KA),
        csa::PieceType::Rook => Some(PieceKind::HI),
        csa::PieceType::King => Some(PieceKind::OU),
        csa::PieceType::ProPawn => Some(PieceKind::TO),
        csa::PieceType::ProLance => Some(PieceKind::NY),
        csa::PieceType::ProKnight => Some(PieceKind::NK),
        csa::PieceType::ProSilver => Some(PieceKind::NG),
        csa::PieceType::Horse => Some(PieceKind::UM),
        csa::PieceType::Dragon => Some(PieceKind::RY),
        csa::PieceType::All => None,
    }
}

/// The engine move that an action stands for, given the piece that occupies
/// its origin square.
///
/// An action that is no move has none (`Ok(None)`). A move from the hand is a
/// drop of the named piece. A move from a board square is a board move; it
/// promotes exactly when `occupant` is not the named piece, and then carries
/// the named piece with its promotion taken back.
pub open spec fn translation(action: csa::Action, occupant: Option<Piece>) -> Result<
    Option<Move>,
    Untranslatable,
> {
    match action {
        csa::Action::Move(c, from, to, pt) => {
            if square_of(to) is None {
                Err(Untranslatable::Destination)
            } else if kind_of(pt) is None {
                Err(Untranslatable::Kind)
            } else {
                let to = square_of(to)->0;
                let piece = Piece { side: side_of(c), kind: kind_of(pt)->0 };
                if is_hand(from) {
                    Ok(Some(Move::Drop { to, piece }))
                } else if square_of(from) is None {
                    Err(Untranslatable::Origin)
                } else {
                    let from = square_of(from)->0;
                    let promotion = occupant != Some(piece);
                    Ok(
                        Some(
                            Move::Normal {
                                from,
                                to,
                                promotion,
                                piece: if promotion {
                                    piece.base()
                                } else {
                                    piece
                                },
                            },
                        ),
                    )
                }
            }
        },
        _ => Ok(None),
    }
}

/// The square whose occupant decides the translation of an action: the origin
/// of a move from the board whose destination and piece kind are in order.
/// For every other action the translation is the same whatever the occupant.
pub open spec fn origin_of(action: csa::Action) -> Option<BoardSquare> {
    match action {
        csa::Action::Move(_, from, to, pt) => {
            if square_of(to) is Some && kind_of(pt) is Some && !is_hand(from) {
                square_of(from)
            } else {
                None
            }
        },
        _ => None,
    }
}

/// Whether a move with these squares and this piece type has an engine move:
/// the destination is a board square, the piece type names a piece, and the
/// origin is a board square or the hand.
pub open spec fn translatable(from: csa::Square, to: csa::Square, pt: csa::PieceType) -> bool {
    square_of(to) is Some && kind_of(pt) is Some && (is_hand(from) || square_of(from) is Some)
}

/// The piece that a move action names: the moving side's piece of the kind
/// that the record gives, which is the kind after the move.
pub open spec fn named_piece(c: csa::Color, pt: csa::PieceType) -> Piece
    recommends
        kind_of(pt) is Some,
{
    Piece { side: side_of(c), kind: kind_of(pt)->0 }
}

/// A move from a board square on which the named piece already stands is a
/// board move without promotion, and it carries that piece.
pub proof fn same_piece_moves_without_promotion(
    c: csa::Color,
    from: csa::Square,
    to: csa::Square,
    pt: csa::PieceType,
    occupant: Option<Piece>,
)
    requires
        translatable(from, to, pt),
        !is_hand(from),
        occupant == Some(named_piece(c, pt)),
    ensures
        translation(csa::Action::Move(c, from, to, pt), occupant) == Ok::<
            Option<Move>,
            Untranslatable,
        >(
            Some(
                Move::Normal {
                    from: square_of(from)->0,
                    to: square_of(to)->0,
                    promotion: false,
                    piece: named_piece(c, pt),
                },
            ),
        ),
{
}

/// A move from a board square on which anything but the named piece stands,
/// or nothing, is a promoting board move. It carries the named piece with its
/// promotion taken back once: the same owner, a kind that is no promoted form,
/// and the base kind of the named one.
pub proof fn other_piece_moves_with_promotion(
    c: csa::Color,
    from: csa::Square,
    to: csa::Square,
    pt: csa::PieceType,
    occupant: Option<Piece>,
)
    requires
        translatable(from, to, pt),
        !is_hand(from),
        occupant != Some(named_piece(c, pt)),
    ensures
        translation(csa::Action::Move(c, from, to, pt), occupant) == Ok::<
            Option<Move>,
            Untranslatable,
        >(
            Some(
                Move::Normal {
                    from: square_of(from)->0,
                    to: square_of(to)->0,
                    promotion: true,
                    piece: named_piece(c, pt).base(),
                },
            ),
        ),
        named_piece(c, pt).base().side == side_of(c),
        named_piece(c, pt).base().kind == kind_of(pt)->0.base(),
        !named_piece(c, pt).base().kind.is_promoted(),
{
}

/// A move from the hand is a drop of the named piece, never a board move,
/// whatever stands anywhere on the board.
pub proof fn hand_origin_gives_drop(
    c: csa::Color,
    from: csa::Square,
    to: csa::Square,
    pt: csa::PieceType,
    occupant: Option<Piece>,
)
    requires
        translatable(from, to, pt),
        is_hand(from),
    ensures
        translation(csa::Action::Move(c, from, to, pt), occupant) == Ok::<
            Option<Move>,
            Untranslatable,
        >(Some(Move::Drop { to: square_of(to)->0, piece: named_piece(c, pt) })),
{
}

/// A move action has an engine move exactly when it is translatable, and is
/// an error otherwise; the occupant is read only where `origin_of` names a
/// square.
pub proof fn move_translates_or_fails(
    c: csa::Color,
    from: csa::Square,
    to: csa::Square,
    pt: csa::PieceType,
    occupant: Option<Piece>,
)
    ensures
        translation(csa::Action::Move(c, from, to, pt), occupant) matches Ok(Some(_))
            <==> translatable(from, to, pt),
        translation(csa::Action::Move(c, from, to, pt), occupant) is Err <==> !translatable(
            from,
            to,
            pt,
        ),
        origin_of(csa::Action::Move(c, from, to, pt)) is Some <==> translatable(from, to, pt)
            && !is_hand(from),
        origin_of(csa::Action::Move(c, from, to, pt)) is None ==> translation(
            csa::Action::Move(c, from, to, pt),
            occupant,
        ) == translation(csa::Action::Move(c, from, to, pt), None),
{
}

/// The side that a record's colour stands for.
pub fn c2c(c: &csa::Color) -> (r: Side)
    ensures
        r == side_of(*c),
{
    match c {
        csa::Color::Black => Side::Black,
        csa::Color::White => Side::White,
    }
}

/// The board square that a record's square stands for, or `None` where a
/// coordinate is outside 1 to 9.
pub fn sq2sq(sq: &csa::Square) -> (r: Option<BoardSquare>)
    ensures
        r == square_of(*sq),
        r matches Some(b) ==> b.on_board(),
{
    BoardSquare::new(sq.file, sq.rank)
}

/// The piece kind that a record's piece type stands for, or `None` for `All`.
pub fn pt2pt(pt: &csa::PieceType) -> (r: Option<PieceKind>)
    ensures
        r == kind_of(*pt),
{
    match pt {
        csa::PieceType::Pawn => Some(PieceKind::FU),
        csa::PieceType::Lance => Some(PieceKind::KY),
        csa::PieceType::Knight => Some(PieceKind::KE),
        csa::PieceType::Silver => Some(PieceKind::GI),
        csa::PieceType::Gold => Some(PieceKind::KI),
        csa::PieceType::Bishop => Some(PieceKind::KA),
        csa::PieceType::Rook => Some(PieceKind::HI),
        csa::PieceType::King => Some(PieceKind::OU),
        csa::PieceType::ProPawn => Some(PieceKind::TO),
        csa::PieceType::ProLance => Some(PieceKind::NY),
        csa::PieceType::ProKnight => Some(PieceKind::NK),
        csa::PieceType::ProSilver => Some(PieceKind::NG),
        csa::PieceType::Horse => Some(PieceKind::UM),
        csa::PieceType::Dragon => Some(PieceKind::RY),
        csa::PieceType::All => None,
    }
}

/// The square that the engine must be asked about before `action` can be
/// translated, if there is one.
pub fn origin(action: &csa::Action) -> (r: Option<BoardSquare>)
    ensures
        r == origin_of(*action),
        r matches Some(b) ==> b.on_board(),
{
    match action {
        csa::Action::Move(_, from, to, pt) => {
            if sq2sq(to).is_some() && pt2pt(pt).is_some() && (from.file != 0 || from.rank != 0) {
                sq2sq(from)
            } else {
                None
            }
        },
        _ => None,
    }
}

/// Translates one action of a record into an engine move. `occupant` is the
/// piece on the action's origin square in the position before the action; it
/// is read only where `origin` names a square.
pub fn action2move(action: &csa::Action, occupant: Option<Piece>) -> (r: Result<
    Option<Move>,
    Untranslatable,
>)
    ensures
        r == translation(*action, occupant),
        r matches Ok(Some(m)) ==> m.well_formed(),
{
    match action {
        csa::Action::Move(c, from, to, pt) => {
            let side = c2c(c);
            let to = match sq2sq(to) {
                Some(to) => to,
                None => {
                    return Err(Untranslatable::Destination);
                },
            };
            let kind = match pt2pt(pt) {
                Some(kind) => kind,
                None => {
                    return Err(Untranslatable::Kind);
                },
            };
            let mut piece = Piece::from_cp(side, kind);
            if from.file != 0 || from.rank != 0 {
                let from = match sq2sq(from) {
                    Some(from) => from,
                    None => {
                        return Err(Untranslatable::Origin);
                    },
                };
                let is_promotion = match occupant {
                    Some(found) => found != piece,
                    None => true,
                };
                if is_promotion {
                    piece = piece.demoted();
                }
                Ok(Some(Move::new_normal(from, to, is_promotion, piece)))
            } else {
                Ok(Some(Move::new_drop(to, piece)))
            }
        },
        _ => Ok(None),
    }
}

} // verus!
