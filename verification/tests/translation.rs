use csa::{Action, Color, PieceType, Square};
use floodgate::piece::{BoardSquare, Move, Piece, PieceKind, Side};
use floodgate::translate::{action2move, c2c, origin, pt2pt, sq2sq, Untranslatable};

fn sq(file: u8, rank: u8) -> BoardSquare {
    BoardSquare { file, rank }
}

#[test]
fn colors_map_one_to_one() {
    assert_eq!(c2c(&Color::Black), Side::Black);
    assert_eq!(c2c(&Color::White), Side::White);
}

#[test]
fn squares_keep_their_coordinates() {
    assert_eq!(sq2sq(&Square::new(7, 6)), Some(sq(7, 6)));
    assert_eq!(sq2sq(&Square::new(1, 1)), Some(sq(1, 1)));
    assert_eq!(sq2sq(&Square::new(9, 9)), Some(sq(9, 9)));
}

#[test]
fn squares_off_the_board_are_refused() {
    assert_eq!(sq2sq(&Square::new(0, 0)), None);
    assert_eq!(sq2sq(&Square::new(0, 5)), None);
    assert_eq!(sq2sq(&Square::new(5, 0)), None);
    assert_eq!(sq2sq(&Square::new(10, 5)), None);
    assert_eq!(sq2sq(&Square::new(5, 10)), None);
}

#[test]
fn board_square_new_checks_both_coordinates() {
    assert_eq!(BoardSquare::new(3, 4), Some(sq(3, 4)));
    assert_eq!(BoardSquare::new(0, 4), None);
    assert_eq!(BoardSquare::new(3, 10), None);
}

#[test]
fn piece_types_map_to_their_codes() {
    assert_eq!(pt2pt(&PieceType::Pawn), Some(PieceKind::FU));
    assert_eq!(pt2pt(&PieceType::Lance), Some(PieceKind::KY));
    assert_eq!(pt2pt(&PieceType::Knight), Some(PieceKind::KE));
    assert_eq!(pt2pt(&PieceType::Silver), Some(PieceKind::GI));
    assert_eq!(pt2pt(&PieceType::Gold), Some(PieceKind::KI));
    assert_eq!(pt2pt(&PieceType::Bishop), Some(PieceKind::KA));
    assert_eq!(pt2pt(&PieceType::Rook), Some(PieceKind::HI));
    assert_eq!(pt2pt(&PieceType::King), Some(PieceKind::OU));
    assert_eq!(pt2pt(&PieceType::ProPawn), Some(PieceKind::TO));
    assert_eq!(pt2pt(&PieceType::ProLance), Some(PieceKind::NY));
    assert_eq!(pt2pt(&PieceType::ProKnight), Some(PieceKind::NK));
    assert_eq!(pt2pt(&PieceType::ProSilver), Some(PieceKind::NG));
    assert_eq!(pt2pt(&PieceType::Horse), Some(PieceKind::UM));
    assert_eq!(pt2pt(&PieceType::Dragon), Some(PieceKind::RY));
}

#[test]
fn the_all_piece_type_names_no_piece() {
    assert_eq!(pt2pt(&PieceType::All), None);
}

#[test]
fn demotion_takes_a_promotion_back() {
    assert_eq!(PieceKind::TO.demoted(), PieceKind::FU);
    assert_eq!(PieceKind::NY.demoted(), PieceKind::KY);
    assert_eq!(PieceKind::NK.demoted(), PieceKind::KE);
    assert_eq!(PieceKind::NG.demoted(), PieceKind::GI);
    assert_eq!(PieceKind::UM.demoted(), PieceKind::KA);
    assert_eq!(PieceKind::RY.demoted(), PieceKind::HI);
}

#[test]
fn demotion_leaves_base_kinds_alone() {
    for kind in [
        PieceKind::FU,
        PieceKind::KY,
        PieceKind::KE,
        PieceKind::GI,
        PieceKind::KI,
        PieceKind::KA,
        PieceKind::HI,
        PieceKind::OU,
    ] {
        assert_eq!(kind.demoted(), kind);
    }
}

#[test]
fn piece_demotion_keeps_the_owner() {
    let horse = Piece::from_cp(Side::White, PieceKind::UM);
    assert_eq!(horse, Piece { side: Side::White, kind: PieceKind::UM });
    assert_eq!(horse.demoted(), Piece { side: Side::White, kind: PieceKind::KA });
}

#[test]
fn move_builders_fill_the_fields() {
    let pawn = Piece::from_cp(Side::Black, PieceKind::FU);
    assert_eq!(
        Move::new_normal(sq(7, 7), sq(7, 6), false, pawn),
        Move::Normal { from: sq(7, 7), to: sq(7, 6), promotion: false, piece: pawn }
    );
    assert_eq!(Move::new_drop(sq(5, 5), pawn), Move::Drop { to: sq(5, 5), piece: pawn });
}

#[test]
fn same_piece_on_origin_gives_plain_move() {
    let action = Action::Move(Color::Black, Square::new(7, 7), Square::new(7, 6), PieceType::Pawn);
    let pawn = Piece { side: Side::Black, kind: PieceKind::FU };
    assert_eq!(
        action2move(&action, Some(pawn)),
        Ok(Some(Move::Normal { from: sq(7, 7), to: sq(7, 6), promotion: false, piece: pawn }))
    );
}

#[test]
fn promoted_piece_moving_on_is_no_promotion() {
    let action =
        Action::Move(Color::White, Square::new(2, 8), Square::new(2, 9), PieceType::Dragon);
    let dragon = Piece { side: Side::White, kind: PieceKind::RY };
    assert_eq!(
        action2move(&action, Some(dragon)),
        Ok(Some(Move::Normal { from: sq(2, 8), to: sq(2, 9), promotion: false, piece: dragon }))
    );
}

#[test]
fn other_piece_on_origin_gives_promotion() {
    let action = Action::Move(Color::Black, Square::new(8, 8), Square::new(2, 2), PieceType::Horse);
    let bishop = Piece { side: Side::Black, kind: PieceKind::KA };
    assert_eq!(
        action2move(&action, Some(bishop)),
        Ok(Some(Move::Normal { from: sq(8, 8), to: sq(2, 2), promotion: true, piece: bishop }))
    );
}

#[test]
fn every_promoted_kind_is_taken_back_once() {
    let pairs = [
        (PieceType::ProPawn, PieceKind::FU),
        (PieceType::ProLance, PieceKind::KY),
        (PieceType::ProKnight, PieceKind::KE),
        (PieceType::ProSilver, PieceKind::GI),
        (PieceType::Horse, PieceKind::KA),
        (PieceType::Dragon, PieceKind::HI),
    ];
    for (after, before) in pairs {
        let action = Action::Move(Color::White, Square::new(4, 6), Square::new(4, 7), after);
        let standing = Piece { side: Side::White, kind: before };
        assert_eq!(
            action2move(&action, Some(standing)),
            Ok(Some(Move::Normal {
                from: sq(4, 6),
                to: sq(4, 7),
                promotion: true,
                piece: standing
            }))
        );
    }
}

#[test]
fn empty_origin_counts_as_another_piece() {
    let action = Action::Move(Color::Black, Square::new(5, 5), Square::new(5, 4), PieceType::ProPawn);
    assert_eq!(
        action2move(&action, None),
        Ok(Some(Move::Normal {
            from: sq(5, 5),
            to: sq(5, 4),
            promotion: true,
            piece: Piece { side: Side::Black, kind: PieceKind::FU }
        }))
    );
}

#[test]
fn opposing_piece_on_origin_counts_as_another_piece() {
    let action = Action::Move(Color::Black, Square::new(5, 5), Square::new(5, 4), PieceType::Gold);
    let theirs = Piece { side: Side::White, kind: PieceKind::KI };
    assert_eq!(
        action2move(&action, Some(theirs)),
        Ok(Some(Move::Normal {
            from: sq(5, 5),
            to: sq(5, 4),
            promotion: true,
            piece: Piece { side: Side::Black, kind: PieceKind::KI }
        }))
    );
}

#[test]
fn hand_origin_gives_drop() {
    let action = Action::Move(Color::White, Square::new(0, 0), Square::new(5, 5), PieceType::Bishop);
    let bishop = Piece { side: Side::White, kind: PieceKind::KA };
    assert_eq!(action2move(&action, None), Ok(Some(Move::Drop { to: sq(5, 5), piece: bishop })));
}

#[test]
fn drop_ignores_the_occupant() {
    let action = Action::Move(Color::White, Square::new(0, 0), Square::new(5, 5), PieceType::Bishop);
    let bishop = Piece { side: Side::White, kind: PieceKind::KA };
    let pawn = Piece { side: Side::Black, kind: PieceKind::FU };
    assert_eq!(
        action2move(&action, Some(pawn)),
        Ok(Some(Move::Drop { to: sq(5, 5), piece: bishop }))
    );
    assert_eq!(
        action2move(&action, Some(bishop)),
        Ok(Some(Move::Drop { to: sq(5, 5), piece: bishop }))
    );
}

#[test]
fn actions_that_are_no_moves_are_passed_over() {
    let others = [
        Action::Toryo,
        Action::Chudan,
        Action::Sennichite,
        Action::TimeUp,
        Action::IllegalMove,
        Action::IllegalAction(Color::Black),
        Action::Jishogi,
        Action::Kachi,
        Action::Hikiwake,
        Action::Matta,
        Action::Tsumi,
        Action::Fuzumi,
        Action::Error,
    ];
    for action in others {
        assert_eq!(action2move(&action, None), Ok(None));
        assert_eq!(origin(&action), None);
    }
}

#[test]
fn destination_off_the_board_is_an_error() {
    let action = Action::Move(Color::Black, Square::new(7, 7), Square::new(0, 0), PieceType::Pawn);
    assert_eq!(action2move(&action, None), Err(Untranslatable::Destination));
    let action = Action::Move(Color::Black, Square::new(0, 0), Square::new(0, 5), PieceType::Pawn);
    assert_eq!(action2move(&action, None), Err(Untranslatable::Destination));
}

#[test]
fn the_all_piece_type_is_an_error() {
    let action = Action::Move(Color::Black, Square::new(7, 7), Square::new(7, 6), PieceType::All);
    assert_eq!(action2move(&action, None), Err(Untranslatable::Kind));
}

#[test]
fn origin_half_off_the_board_is_an_error() {
    let action = Action::Move(Color::Black, Square::new(0, 7), Square::new(7, 6), PieceType::Pawn);
    assert_eq!(action2move(&action, None), Err(Untranslatable::Origin));
    let action = Action::Move(Color::Black, Square::new(7, 0), Square::new(7, 6), PieceType::Pawn);
    assert_eq!(action2move(&action, None), Err(Untranslatable::Origin));
}

#[test]
fn destination_is_judged_before_kind_and_origin() {
    let action = Action::Move(Color::Black, Square::new(0, 7), Square::new(0, 6), PieceType::All);
    assert_eq!(action2move(&action, None), Err(Untranslatable::Destination));
    let action = Action::Move(Color::Black, Square::new(0, 7), Square::new(7, 6), PieceType::All);
    assert_eq!(action2move(&action, None), Err(Untranslatable::Kind));
}

#[test]
fn origin_names_the_square_to_inspect() {
    let action = Action::Move(Color::Black, Square::new(7, 7), Square::new(7, 6), PieceType::Pawn);
    assert_eq!(origin(&action), Some(sq(7, 7)));
}

#[test]
fn origin_is_none_where_no_occupant_is_needed() {
    let drop = Action::Move(Color::Black, Square::new(0, 0), Square::new(7, 6), PieceType::Pawn);
    assert_eq!(origin(&drop), None);
    let bad_to = Action::Move(Color::Black, Square::new(7, 7), Square::new(7, 0), PieceType::Pawn);
    assert_eq!(origin(&bad_to), None);
    let bad_kind = Action::Move(Color::Black, Square::new(7, 7), Square::new(7, 6), PieceType::All);
    assert_eq!(origin(&bad_kind), None);
    let bad_from = Action::Move(Color::Black, Square::new(7, 0), Square::new(7, 6), PieceType::Pawn);
    assert_eq!(origin(&bad_from), None);
}
