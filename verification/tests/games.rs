use csa::{Action, Color, PieceType, Square};
use floodgate::load::{check, load, CheckError};
use floodgate::compare::Mismatch;
use floodgate::piece::{BoardSquare, Move, Piece, PieceKind, Side};
use floodgate::replay::{Event, Replay, ReplayError, Request};
use floodgate::translate::Untranslatable;

const START: &str = "\
P1-KY-KE-GI-KI-OU-KI-GI-KE-KY
P2 * -HI *  *  *  *  * -KA * 
P3-FU-FU-FU-FU-FU-FU-FU-FU-FU
P4 *  *  *  *  *  *  *  *  * 
P5 *  *  *  *  *  *  *  *  * 
P6 *  *  *  *  *  *  *  *  * 
P7+FU+FU+FU+FU+FU+FU+FU+FU+FU
P8 * +KA *  *  *  *  * +HI * 
P9+KY+KE+GI+KI+OU+KI+GI+KE+KY
+
";

/// A board that moves pieces as it is told, enough to drive a replay.
#[derive(Clone)]
struct Board {
    squares: [[Option<Piece>; 9]; 9],
    hands: [Vec<PieceKind>; 2],
    side: Side,
    before: Vec<([[Option<Piece>; 9]; 9], [Vec<PieceKind>; 2], Side)>,
}

fn code(kind: PieceKind) -> &'static str {
    match kind {
        PieceKind::FU => "FU",
        PieceKind::KY => "KY",
        PieceKind::KE => "KE",
        PieceKind::GI => "GI",
        PieceKind::KI => "KI",
        PieceKind::KA => "KA",
        PieceKind::HI => "HI",
        PieceKind::OU => "OU",
        PieceKind::TO => "TO",
        PieceKind::NY => "NY",
        PieceKind::NK => "NK",
        PieceKind::NG => "NG",
        PieceKind::UM => "UM",
        PieceKind::RY => "RY",
    }
}

fn kind(text: &str) -> PieceKind {
    match text {
        "FU" => PieceKind::FU,
        "KY" => PieceKind::KY,
        "KE" => PieceKind::KE,
        "GI" => PieceKind::GI,
        "KI" => PieceKind::KI,
        "KA" => PieceKind::KA,
        "HI" => PieceKind::HI,
        "OU" => PieceKind::OU,
        "TO" => PieceKind::TO,
        "NY" => PieceKind::NY,
        "NK" => PieceKind::NK,
        "NG" => PieceKind::NG,
        "UM" => PieceKind::UM,
        "RY" => PieceKind::RY,
        _ => panic!("no piece kind: {}", text),
    }
}

fn promoted(kind: PieceKind) -> PieceKind {
    match kind {
        PieceKind::FU => PieceKind::TO,
        PieceKind::KY => PieceKind::NY,
        PieceKind::KE => PieceKind::NK,
        PieceKind::GI => PieceKind::NG,
        PieceKind::KA => PieceKind::UM,
        PieceKind::HI => PieceKind::RY,
        other => other,
    }
}

fn hand_index(side: Side) -> usize {
    match side {
        Side::Black => 0,
        Side::White => 1,
    }
}

fn other(side: Side) -> Side {
    match side {
        Side::Black => Side::White,
        Side::White => Side::Black,
    }
}

impl Board {
    fn start() -> Board {
        let mut squares = [[None; 9]; 9];
        for (r, line) in START.lines().take(9).enumerate() {
            for i in 0..9 {
                let cell = &line[2 + 3 * i..5 + 3 * i];
                if cell != " * " {
                    let side = if &cell[..1] == "+" { Side::Black } else { Side::White };
                    squares[r][8 - i] = Some(Piece { side, kind: kind(&cell[1..]) });
                }
            }
        }
        Board { squares, hands: [Vec::new(), Vec::new()], side: Side::Black, before: Vec::new() }
    }

    fn piece_on(&self, sq: BoardSquare) -> Option<Piece> {
        self.squares[sq.rank as usize - 1][sq.file as usize - 1]
    }

    fn set(&mut self, sq: BoardSquare, piece: Option<Piece>) {
        self.squares[sq.rank as usize - 1][sq.file as usize - 1] = piece;
    }

    fn accepts(&self, m: Move) -> bool {
        match m {
            Move::Normal { from, to, piece, .. } => {
                piece.side == self.side
                    && self.piece_on(from) == Some(piece)
                    && self.piece_on(to).map_or(true, |p| p.side != self.side)
            }
            Move::Drop { to, piece } => {
                piece.side == self.side
                    && self.piece_on(to).is_none()
                    && self.hands[hand_index(self.side)].contains(&piece.kind)
            }
        }
    }

    fn do_move(&mut self, m: Move) {
        self.before.push((self.squares, self.hands.clone(), self.side));
        match m {
            Move::Normal { from, to, promotion, piece } => {
                if let Some(taken) = self.piece_on(to) {
                    self.hands[hand_index(self.side)].push(taken.kind.demoted());
                }
                let kind = if promotion { promoted(piece.kind) } else { piece.kind };
                self.set(from, None);
                self.set(to, Some(Piece { side: piece.side, kind }));
            }
            Move::Drop { to, piece } => {
                let hand = &mut self.hands[hand_index(self.side)];
                let at = hand.iter().position(|k| *k == piece.kind).unwrap();
                hand.remove(at);
                self.set(to, Some(piece));
            }
        }
        self.side = other(self.side);
    }

    fn undo_move(&mut self) {
        let (squares, hands, side) = self.before.pop().unwrap();
        self.squares = squares;
        self.hands = hands;
        self.side = side;
    }

    fn render(&self) -> String {
        let mut out = String::new();
        for r in 0..9 {
            out.push_str(&format!("P{}", r + 1));
            for i in 0..9 {
                match self.squares[r][8 - i] {
                    Some(p) => {
                        out.push(if p.side == Side::Black { '+' } else { '-' });
                        out.push_str(code(p.kind));
                    }
                    None => out.push_str(" * "),
                }
            }
            out.push('\n');
        }
        for (mark, hand) in ["P+", "P-"].iter().zip(self.hands.iter()) {
            if !hand.is_empty() {
                out.push_str(mark);
                for k in hand {
                    out.push_str("00");
                    out.push_str(code(*k));
                }
                out.push('\n');
            }
        }
        out.push_str(if self.side == Side::Black { "+\n" } else { "-\n" });
        out
    }

    fn key(&self) -> u64 {
        let mut h: u64 = 0xcbf29ce484222325;
        for b in self.render().bytes() {
            h ^= b as u64;
            h = h.wrapping_mul(0x100000001b3);
        }
        h
    }
}

/// Serves a replay until it is over or given up, and counts the requests.
fn drive(mut replay: Replay, board: &mut Board) -> (Replay, usize) {
    let mut served = 0;
    loop {
        let event = match replay.request() {
            Request::Inspect(sq) => Event::Occupant(board.piece_on(sq)),
            Request::Apply(m) => {
                if board.accepts(m) {
                    board.do_move(m);
                    Event::Applied(board.key())
                } else {
                    Event::Rejected
                }
            }
            Request::Undo(_) => {
                board.undo_move();
                Event::Undone
            }
            Request::Finish | Request::Abort(_) => return (replay, served),
        };
        served += 1;
        replay = replay.step(event);
    }
}

fn commented(text: &str) -> String {
    let mut out = String::new();
    for line in text.lines() {
        out.push('\'');
        out.push_str(line);
        out.push('\n');
    }
    out
}

fn record(moves: &[&str], closing: &str, annotation: &str) -> String {
    let mut out = String::from("V2.2\nN+sente\nN-gote\n$START_TIME:2021/03/14 09:26:53\nPI\n+\n");
    for m in moves {
        out.push_str(m);
        out.push_str("\nT1\n");
    }
    out.push_str(closing);
    out.push_str(&commented(annotation));
    out
}

fn sq(file: u8, rank: u8) -> BoardSquare {
    BoardSquare { file, rank }
}

const FORTY_MOVES: [&str; 40] = [
    "+1716FU", "-1314FU", "+2726FU", "-2324FU", "+3736FU", "-3334FU", "+4746FU", "-4344FU",
    "+5756FU", "-5354FU", "+6766FU", "-6364FU", "+7776FU", "-7374FU", "+8786FU", "-8384FU",
    "+9796FU", "-9394FU", "+1615FU", "-4142KI", "+2625FU", "-6162KI", "+3635FU", "-3132GI",
    "+4645FU", "-7172GI", "+5655FU", "-5152OU", "+6665FU", "-2133KE", "+7675FU", "-8173KE",
    "+8685FU", "-1112KY", "+9695FU", "-9192KY", "+4948KI", "-2231KA", "+6968KI", "-4243KI",
];

const AFTER_FORTY_MOVES: &str = "\
P1 *  *  *  *  *  * -KA *  * 
P2-KY-HI-GI-KI-OU * -GI * -KY
P3 *  * -KE *  * -KI-KE *  * 
P4-FU-FU-FU-FU-FU-FU-FU-FU-FU
P5+FU+FU+FU+FU+FU+FU+FU+FU+FU
P6 *  *  *  *  *  *  *  *  * 
P7 *  *  *  *  *  *  *  *  * 
P8 * +KA * +KI * +KI * +HI * 
P9+KY+KE+GI * +OU * +GI+KE+KY
P+
P-
+
";

const SHUFFLE: [&str; 16] = [
    "+2818HI", "-8292HI", "+1828HI", "-9282HI", "+2818HI", "-8292HI", "+1828HI", "-9282HI",
    "+2818HI", "-8292HI", "+1828HI", "-9282HI", "+2818HI", "-8292HI", "+1828HI", "-9282HI",
];

const BEFORE_FOURTH_OCCURRENCE: &str = "\
P1-KY-KE-GI-KI-OU-KI-GI-KE-KY
P2-HI *  *  *  *  *  * -KA * 
P3-FU-FU-FU-FU-FU-FU-FU-FU-FU
P4 *  *  *  *  *  *  *  *  * 
P5 *  *  *  *  *  *  *  *  * 
P6 *  *  *  *  *  *  *  *  * 
P7+FU+FU+FU+FU+FU+FU+FU+FU+FU
P8 * +KA *  *  *  *  * +HI * 
P9+KY+KE+GI+KI+OU+KI+GI+KE+KY
-
";

const EXCHANGE: [&str; 5] = ["+7776FU", "-3334FU", "+8822UM", "-3122GI", "+0055KA"];

const AFTER_EXCHANGE: &str = "\
P1-KY-KE-GI-KI-OU-KI * -KE-KY
P2 * -HI *  *  *  *  * -GI * 
P3-FU-FU-FU-FU-FU-FU * -FU-FU
P4 *  *  *  *  *  * -FU *  * 
P5 *  *  *  * +KA *  *  *  * 
P6 *  * +FU *  *  *  *  *  * 
P7+FU+FU * +FU+FU+FU+FU+FU+FU
P8 *  *  *  *  *  *  * +HI * 
P9+KY+KE+GI+KI+OU+KI+GI+KE+KY
P-00KA
-
";

#[test]
fn empty_record_asks_nothing_of_the_engine() {
    let mut board = Board::start();
    let start = board.key();
    let (replay, served) = drive(Replay::new(Vec::new(), start), &mut board);
    assert_eq!(served, 0);
    assert_eq!(replay.request(), Request::Finish);
    assert_eq!(replay.applied(), 0);
    assert_eq!(replay.key(), start);
    assert_eq!(board.render(), START);
    assert_eq!(replay.table().len(), 1);
    assert_eq!(replay.table().visits(start), 1);
    assert_eq!(replay.table().visits(start.wrapping_add(1)), 0);
}

#[test]
fn record_of_closing_actions_only_asks_nothing_of_the_engine() {
    let mut board = Board::start();
    let start = board.key();
    let actions = vec![Action::Chudan, Action::Toryo];
    let (replay, served) = drive(Replay::new(actions, start), &mut board);
    assert_eq!(served, 0);
    assert_eq!(replay.request(), Request::Finish);
    assert_eq!(replay.cursor(), 2);
    assert_eq!(replay.table().visits(start), 1);
    assert_eq!(board.render(), START);
}

#[test]
fn forty_moves_without_capture_reach_the_annotated_position() {
    let text = record(&FORTY_MOVES, "%TORYO\n", AFTER_FORTY_MOVES);
    let record = load(&text).unwrap().unwrap();
    assert_eq!(record.actions.len(), 41);
    assert!(record.expected.hands[0].is_empty());
    assert!(record.expected.hands[1].is_empty());
    assert_eq!(record.expected.color, Side::Black);
    let mut board = Board::start();
    let (replay, served) = drive(Replay::new(record.actions, board.key()), &mut board);
    assert_eq!(replay.request(), Request::Finish);
    assert_eq!(replay.applied(), 40);
    assert_eq!(served, 80);
    assert_eq!(replay.cursor(), 41);
    assert_eq!(replay.key(), board.key());
    assert_eq!(check(&record.expected, &board.render()), Ok(()));
}

#[test]
fn fourth_occurrence_stops_the_replay_early() {
    let text = record(&SHUFFLE, "%SENNICHITE\n", BEFORE_FOURTH_OCCURRENCE);
    let record = load(&text).unwrap().unwrap();
    assert_eq!(record.actions.len(), 17);
    let mut board = Board::start();
    let start = board.key();
    let (replay, _) = drive(Replay::new(record.actions, start), &mut board);
    assert_eq!(replay.request(), Request::Finish);
    assert_eq!(replay.applied(), 11);
    assert_eq!(replay.cursor(), 11);
    assert_eq!(replay.moves().len(), 11);
    assert_eq!(replay.table().len(), 4);
    assert_eq!(replay.table().visits(start), 4);
    assert_eq!(replay.key(), board.key());
    assert_eq!(replay.table().visits(replay.key()), 3);
    assert_eq!(board.render(), BEFORE_FOURTH_OCCURRENCE);
    assert_eq!(check(&record.expected, &board.render()), Ok(()));
}

#[test]
fn fourth_occurrence_is_answered_with_undo_of_that_move() {
    let text = record(&SHUFFLE, "", BEFORE_FOURTH_OCCURRENCE);
    let record = load(&text).unwrap().unwrap();
    let mut board = Board::start();
    let mut replay = Replay::new(record.actions, board.key());
    let back = Move::Normal {
        from: sq(9, 2),
        to: sq(8, 2),
        promotion: false,
        piece: Piece { side: Side::White, kind: PieceKind::HI },
    };
    let mut applied = 0;
    loop {
        match replay.request() {
            Request::Inspect(at) => {
                replay = replay.step(Event::Occupant(board.piece_on(at)));
            }
            Request::Apply(m) => {
                board.do_move(m);
                applied += 1;
                replay = replay.step(Event::Applied(board.key()));
                if applied == 12 {
                    assert_eq!(m, back);
                    break;
                }
                assert_eq!(replay.applied(), applied);
            }
            other => panic!("unexpected request {:?}", other),
        }
    }
    assert_eq!(replay.request(), Request::Undo(back));
    assert_eq!(replay.applied(), 11);
    let replay = replay.step(Event::Undone);
    assert_eq!(replay.request(), Request::Finish);
    let replay = replay.step(Event::Applied(1)).step(Event::Occupant(None)).step(Event::Rejected);
    assert_eq!(replay.request(), Request::Finish);
    assert_eq!(replay.applied(), 11);
}

#[test]
fn third_occurrence_does_not_stop_the_replay() {
    let text = record(&SHUFFLE[..8], "%CHUDAN\n", START);
    let record = load(&text).unwrap().unwrap();
    let mut board = Board::start();
    let start = board.key();
    let (replay, _) = drive(Replay::new(record.actions, start), &mut board);
    assert_eq!(replay.request(), Request::Finish);
    assert_eq!(replay.applied(), 8);
    assert_eq!(replay.table().visits(start), 3);
    assert_eq!(check(&record.expected, &board.render()), Ok(()));
}

#[test]
fn capture_promotion_and_drop_reach_the_annotated_position() {
    let text = record(&EXCHANGE, "%CHUDAN\n", AFTER_EXCHANGE);
    let record = load(&text).unwrap().unwrap();
    let mut board = Board::start();
    let (replay, served) = drive(Replay::new(record.actions, board.key()), &mut board);
    assert_eq!(replay.request(), Request::Finish);
    assert_eq!(replay.applied(), 5);
    assert_eq!(served, 9);
    assert_eq!(
        replay.moves()[2],
        Move::Normal {
            from: sq(8, 8),
            to: sq(2, 2),
            promotion: true,
            piece: Piece { side: Side::Black, kind: PieceKind::KA },
        }
    );
    assert_eq!(
        replay.moves()[4],
        Move::Drop { to: sq(5, 5), piece: Piece { side: Side::Black, kind: PieceKind::KA } }
    );
    assert_eq!(board.render(), AFTER_EXCHANGE);
    assert_eq!(check(&record.expected, &board.render()), Ok(()));
}

#[test]
fn altered_hand_token_in_annotation_is_a_hands_mismatch() {
    let altered = AFTER_EXCHANGE.replace("P-00KA", "P-00HI");
    let text = record(&EXCHANGE, "%CHUDAN\n", &altered);
    let record = load(&text).unwrap().unwrap();
    let mut board = Board::start();
    let (replay, _) = drive(Replay::new(record.actions, board.key()), &mut board);
    assert_eq!(replay.request(), Request::Finish);
    assert_eq!(
        check(&record.expected, &board.render()),
        Err(CheckError::Mismatch(Mismatch { board: false, hands: true, color: false }))
    );
}

#[test]
fn rejected_move_aborts_with_index_and_hash() {
    let text = record(&["+7776FU", "-3334FU", "+2822HI", "-3435FU"], "", START);
    let record = load(&text).unwrap().unwrap();
    let mut board = Board::start();
    board.do_move(Move::Normal {
        from: sq(2, 8),
        to: sq(1, 8),
        promotion: false,
        piece: Piece { side: Side::Black, kind: PieceKind::HI },
    });
    board.side = Side::Black;
    let (replay, _) = drive(Replay::new(record.actions, board.key()), &mut board);
    let key = board.key();
    assert_eq!(
        replay.request(),
        Request::Abort(ReplayError::IllegalMove { index: 2, key })
    );
    assert_eq!(replay.applied(), 2);
    assert_eq!(replay.key(), key);
    let replay = replay.step(Event::Applied(7));
    assert_eq!(replay.request(), Request::Abort(ReplayError::IllegalMove { index: 2, key }));
}

#[test]
fn untranslatable_move_aborts_with_its_index() {
    let actions = vec![
        Action::Move(Color::Black, Square::new(7, 7), Square::new(7, 6), PieceType::Pawn),
        Action::Toryo,
        Action::Move(Color::White, Square::new(3, 3), Square::new(3, 0), PieceType::Pawn),
    ];
    let mut board = Board::start();
    let (replay, _) = drive(Replay::new(actions, board.key()), &mut board);
    assert_eq!(
        replay.request(),
        Request::Abort(ReplayError::Untranslatable { index: 2, reason: Untranslatable::Destination })
    );
    assert_eq!(replay.applied(), 1);
}

#[test]
fn untranslatable_first_move_aborts_at_once() {
    let actions =
        vec![Action::Move(Color::Black, Square::new(7, 7), Square::new(7, 6), PieceType::All)];
    let replay = Replay::new(actions, 1);
    assert_eq!(
        replay.request(),
        Request::Abort(ReplayError::Untranslatable { index: 0, reason: Untranslatable::Kind })
    );
}

#[test]
fn events_that_answer_nothing_change_nothing() {
    let actions =
        vec![Action::Move(Color::Black, Square::new(7, 7), Square::new(7, 6), PieceType::Pawn)];
    let replay = Replay::new(actions, 1);
    assert_eq!(replay.request(), Request::Inspect(sq(7, 7)));
    let replay = replay.step(Event::Applied(2)).step(Event::Undone).step(Event::Rejected);
    assert_eq!(replay.request(), Request::Inspect(sq(7, 7)));
    assert_eq!(replay.applied(), 0);
    assert_eq!(replay.table().visits(2), 0);
    let pawn = Piece { side: Side::Black, kind: PieceKind::FU };
    let replay = replay.step(Event::Occupant(Some(pawn)));
    let m = Move::Normal { from: sq(7, 7), to: sq(7, 6), promotion: false, piece: pawn };
    assert_eq!(replay.request(), Request::Apply(m));
    let replay = replay.step(Event::Occupant(None)).step(Event::Undone);
    assert_eq!(replay.request(), Request::Apply(m));
    let replay = replay.step(Event::Applied(2));
    assert_eq!(replay.request(), Request::Finish);
    assert_eq!(replay.applied(), 1);
    assert_eq!(replay.key(), 2);
    assert_eq!(replay.table().visits(1), 1);
    assert_eq!(replay.table().visits(2), 1);
}

#[test]
fn drop_is_requested_without_inspection() {
    let actions =
        vec![Action::Move(Color::White, Square::new(0, 0), Square::new(5, 5), PieceType::Gold)];
    let replay = Replay::new(actions, 1);
    assert_eq!(
        replay.request(),
        Request::Apply(Move::Drop {
            to: sq(5, 5),
            piece: Piece { side: Side::White, kind: PieceKind::KI }
        })
    );
}

#[test]
fn repetition_is_counted_by_hash_alone() {
    let pawn = Action::Move(Color::Black, Square::new(0, 0), Square::new(5, 5), PieceType::Pawn);
    let mut replay = Replay::new(vec![pawn; 6], 9);
    for n in 1..4u32 {
        assert!(matches!(replay.request(), Request::Apply(_)));
        replay = replay.step(Event::Applied(9));
        if n < 3 {
            assert_eq!(replay.applied(), n as usize);
            assert_eq!(replay.table().visits(9), n + 1);
        }
    }
    assert!(matches!(replay.request(), Request::Undo(_)));
    assert_eq!(replay.applied(), 2);
    assert_eq!(replay.table().visits(9), 4);
    assert_eq!(replay.cursor(), 2);
}
