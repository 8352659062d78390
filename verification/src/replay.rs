//! The replay of a record's actions on a rules engine, as a state machine.
//!
//! The engine is not part of this library. A driver owns the engine's
//! position; the replay tells it what to do next (`Request`) and is told what
//! came of it (`Event`). The replay decides everything else: which
//! action is next, how it translates, when a position has occurred for the
//! fourth time, and when the replay is over.

use vstd::prelude::*;
use crate::piece::{BoardSquare, Move, Piece};
use crate::repetition::{
    lemma_occurrences_push, lemma_tally_one, lemma_tally_push, occurrences, tally, RepetitionTable,
};
use crate::translate::{action2move, origin, origin_of, translation, Untranslatable};

verus! {

/// The number of occurrences of one position at which a game is drawn.
pub const REPETITION_LIMIT: u32 = 4;

/// Why a replay was given up.
#[derive(Clone, Copy, Debug, PartialEq, Eq, Structural)]
pub enum ReplayError {
    /// The action at `index` is a move that has no engine move.
    Untranslatable { index: usize, reason: Untranslatable },
    /// The engine rejected the move of the action at `index`, in the position
    /// with hash `key`.
    IllegalMove { index: usize, key: u64 },
}

/// What the driver has to do next.
#[derive(Clone, Copy, Debug, PartialEq, Eq, Structural)]
pub enum Request {
    /// Report the piece on this square: answer with `Event::Occupant`.
    Inspect(BoardSquare),
    /// Apply this move: answer with `Event::Applied` and the hash of the new
    /// position, or with `Event::Rejected` where the engine refuses the move.
    Apply(Move),
    /// Take this move back, which is the last one applied: answer with
    /// `Event::Undone`.
    Undo(Move),
    /// The replay is over; the position stands as the replay leaves it.
    Finish,
    /// The replay was given up.
    Abort(ReplayError),
}

/// What the driver reports.
#[derive(Clone, Copy, Debug, PartialEq, Eq, Structural)]
pub enum Event {
    /// The piece on the square asked about, or none.
    Occupant(Option<Piece>),
    /// The move was applied; the position now has this hash.
    Applied(u64),
    /// The engine refused the move.
    Rejected,
    /// The move was taken back.
    Undone,
}

/// The state of a replay.
pub struct ReplayState {
    /// The actions of the record.
    pub actions: Seq<csa::Action>,
    /// The index of the action in hand; the number of actions once all are
    /// done.
    pub cursor: int,
    /// The hashes of the positions that have occurred, in order: the starting
    /// position, then the position after each move that was applied.
    pub keys: Seq<u64>,
    /// The moves that were applied and not taken back.
    pub moves: Seq<Move>,
    /// The hash of the position that the replay has reached.
    pub key: u64,
    /// What the driver has to do next.
    pub request: Request,
}

/// Where a replay comes to rest when it looks for work from action `k` on:
/// the index of the first move action at or after `k`, with the request that
/// this action gives rise to, or the end of the record, with `Finish`.
/// Actions that are no moves are passed over.
pub open spec fn pending(actions: Seq<csa::Action>, k: int) -> (int, Request)
    decreases actions.len() - k,
{
    if k < 0 || k >= actions.len() {
        (actions.len() as int, Request::Finish)
    } else {
        match origin_of(actions[k]) {
            Some(square) => (k, Request::Inspect(square)),
            None => match translation(actions[k], None) {
                Ok(None) => pending(actions, k + 1),
                Ok(Some(m)) => (k, Request::Apply(m)),
                Err(reason) => (
                    k,
                    Request::Abort(ReplayError::Untranslatable { index: k as usize, reason }),
                ),
            },
        }
    }
}

/// The state in which a replay of `actions` begins, on a position with hash
/// `key`.
pub open spec fn start(actions: Seq<csa::Action>, key: u64) -> ReplayState {
    ReplayState {
        actions,
        cursor: pending(actions, 0).0,
        keys: seq![key],
        moves: Seq::empty(),
        key,
        request: pending(actions, 0).1,
    }
}

/// The state that follows `s` on `event`.
///
/// An event that does not answer the request of `s` changes nothing. Once the
/// request is `Finish` or `Abort`, no event changes anything.
pub open spec fn next(s: ReplayState, event: Event) -> ReplayState {
    match (s.request, event) {
        (Request::Inspect(_), Event::Occupant(occupant)) => match translation(
            s.actions[s.cursor],
            occupant,
        ) {
            Ok(Some(m)) => ReplayState { request: Request::Apply(m), ..s },
            Ok(None) => s,
            Err(reason) => ReplayState {
                request: Request::Abort(
                    ReplayError::Untranslatable { index: s.cursor as usize, reason },
                ),
                ..s
            },
        },
        (Request::Apply(m), Event::Applied(key)) => {
            if occurrences(s.keys.push(key), key) >= REPETITION_LIMIT {
                ReplayState { keys: s.keys.push(key), request: Request::Undo(m), ..s }
            } else {
                ReplayState {
                    actions: s.actions,
                    cursor: pending(s.actions, s.cursor + 1).0,
                    keys: s.keys.push(key),
                    moves: s.moves.push(m),
                    key,
                    request: pending(s.actions, s.cursor + 1).1,
                }
            }
        },
        (Request::Apply(_), Event::Rejected) => ReplayState {
            request: Request::Abort(
                ReplayError::IllegalMove { index: s.cursor as usize, key: s.key },
            ),
            ..s
        },
        (Request::Undo(_), Event::Undone) => ReplayState { request: Request::Finish, ..s },
        _ => s,
    }
}

/// The state that follows `s` on a sequence of events.
pub open spec fn run(s: ReplayState, events: Seq<Event>) -> ReplayState
    decreases events.len(),
{
    if events.len() == 0 {
        s
    } else {
        next(run(s, events.drop_last()), events.last())
    }
}

/// The indices of the move actions before `k`, in order.
pub open spec fn move_indices(actions: Seq<csa::Action>, k: int) -> Seq<int>
    decreases k,
{
    if k <= 0 {
        Seq::empty()
    } else if k <= actions.len() && actions[k - 1] is Move {
        move_indices(actions, k - 1).push(k - 1)
    } else {
        move_indices(actions, k - 1)
    }
}

/// Whether `m` is the engine move of `action` for some occupant of its origin
/// square.
pub open spec fn translates(action: csa::Action, m: Move) -> bool {
    exists|occupant: Option<Piece>| #[trigger]
        translation(action, occupant) == Ok::<Option<Move>, Untranslatable>(Some(m))
}

impl ReplayState {
    /// No position has occurred as often as the limit: the last hash is that
    /// of the position reached, and every move that was applied stands.
    pub open spec fn calm(self) -> bool {
        &&& self.keys.len() == self.moves.len() + 1
        &&& self.keys.last() == self.key
        &&& forall|key: u64| occurrences(self.keys, key) < REPETITION_LIMIT
    }

    /// The last position to occur was the fourth occurrence of its hash: the
    /// move that led to it does not stand, and the position reached is the
    /// one before it.
    pub open spec fn cut_off(self) -> bool {
        &&& self.keys.len() == self.moves.len() + 2
        &&& self.keys[self.keys.len() - 2] == self.key
        &&& occurrences(self.keys, self.keys.last()) == REPETITION_LIMIT
        &&& forall|key: u64| occurrences(self.keys.drop_last(), key) < REPETITION_LIMIT
    }

    /// What holds of every state of a replay. The moves that stand are, in
    /// order, engine moves of the move actions before the cursor, one of each:
    /// no move action is passed over, and nothing else is applied.
    pub open spec fn valid(self) -> bool {
        &&& 0 <= self.cursor <= self.actions.len() <= usize::MAX
        &&& self.moves.len() == move_indices(self.actions, self.cursor).len()
        &&& forall|i: int|
            0 <= i < self.moves.len() ==> translates(
                self.actions[move_indices(self.actions, self.cursor)[i]],
                #[trigger] self.moves[i],
            )
        &&& match self.request {
            Request::Inspect(square) => self.calm() && self.cursor < self.actions.len()
                && origin_of(self.actions[self.cursor]) == Some(square),
            Request::Apply(m) => self.calm() && self.cursor < self.actions.len() && translates(
                self.actions[self.cursor],
                m,
            ),
            Request::Undo(m) => self.cut_off() && self.cursor < self.actions.len() && translates(
                self.actions[self.cursor],
                m,
            ),
            Request::Finish => self.cut_off() || (self.calm() && self.cursor
                == self.actions.len()),
            Request::Abort(_) => self.calm() && self.cursor < self.actions.len(),
        }
    }
}

/// Looking for work from `k` on ends at or after `k`, within the record, and
/// ends at the end of the record exactly when it ends with `Finish`. It passes
/// over no move action.
pub proof fn lemma_pending(actions: Seq<csa::Action>, k: int)
    requires
        0 <= k <= actions.len(),
    ensures
        k <= pending(actions, k).0 <= actions.len(),
        pending(actions, k).1 is Finish <==> pending(actions, k).0 == actions.len(),
        pending(actions, k).1 matches Request::Inspect(square) ==> origin_of(
            actions[pending(actions, k).0],
        ) == Some(square),
        pending(actions, k).1 matches Request::Apply(m) ==> translates(
            actions[pending(actions, k).0],
            m,
        ),
        !(pending(actions, k).1 is Undo),
        forall|i: int| k <= i < pending(actions, k).0 ==> !(#[trigger] actions[i] is Move),
        move_indices(actions, pending(actions, k).0) == move_indices(actions, k),
    decreases actions.len() - k,
{
    if k < actions.len() {
        lemma_pending(actions, k + 1);
        if let Request::Apply(m) = pending(actions, k).1 {
            if pending(actions, k).0 == k {
                assert(translation(actions[k], None) == Ok::<Option<Move>, Untranslatable>(
                    Some(m),
                ));
            }
        }
    }
}

/// A replay begins in a valid state.
pub proof fn start_is_valid(actions: Seq<csa::Action>, key: u64)
    requires
        actions.len() <= usize::MAX,
    ensures
        start(actions, key).valid(),
{
    lemma_pending(actions, 0);
    lemma_tally_one(key);
}

/// Every event leads from a valid state to a valid state.
pub proof fn next_keeps_valid(s: ReplayState, event: Event)
    requires
        s.valid(),
    ensures
        next(s, event).valid(),
{
    match (s.request, event) {
        (Request::Inspect(_), Event::Occupant(occupant)) => {
            if let Ok(Some(m)) = translation(s.actions[s.cursor], occupant) {
                assert(translates(s.actions[s.cursor], m));
            }
        },
        (Request::Apply(m), Event::Applied(key)) => {
            lemma_pending(s.actions, s.cursor + 1);
            let t = next(s, event);
            if !(t.request is Undo) {
                assert(s.actions[s.cursor] is Move);
                assert(move_indices(s.actions, t.cursor) == move_indices(
                    s.actions,
                    s.cursor,
                ).push(s.cursor));
                assert forall|i: int| 0 <= i < t.moves.len() implies translates(
                    t.actions[move_indices(t.actions, t.cursor)[i]],
                    #[trigger] t.moves[i],
                ) by {
                    if i < s.moves.len() {
                        assert(t.moves[i] == s.moves[i]);
                    }
                }
            }
            let keys = s.keys.push(key);
            assert(keys.drop_last() == s.keys);
            assert forall|other: u64|
                occurrences(keys, other) == occurrences(s.keys, other) + (if other == key {
                    1nat
                } else {
                    0nat
                }) by {
                lemma_occurrences_push(s.keys, key, other);
            }
            if occurrences(keys, key) >= REPETITION_LIMIT {
                assert(keys[keys.len() - 2] == s.keys.last());
            }
        },
        _ => {},
    }
}

/// Every state that a replay passes through is valid, whatever is reported
/// to it.
pub proof fn replay_stays_valid(actions: Seq<csa::Action>, key: u64, events: Seq<Event>)
    requires
        actions.len() <= usize::MAX,
    ensures
        run(start(actions, key), events).valid(),
    decreases events.len(),
{
    if events.len() == 0 {
        start_is_valid(actions, key);
    } else {
        replay_stays_valid(actions, key, events.drop_last());
        next_keeps_valid(run(start(actions, key), events.drop_last()), events.last());
    }
}

/// In every state of a replay the repetition table holds the hash of the
/// position reached, and counts it as often as that hash has occurred since
/// the start, the start included: at least once, and less often than the
/// limit while the replay goes on.
pub proof fn position_reached_is_counted(s: ReplayState)
    requires
        s.valid(),
    ensures
        tally(s.keys).contains_key(s.key),
        tally(s.keys)[s.key] == occurrences(s.keys, s.key),
        1 <= occurrences(s.keys, s.key) <= REPETITION_LIMIT,
        s.calm() ==> occurrences(s.keys, s.key) < REPETITION_LIMIT,
{
    if s.calm() {
        assert(s.keys[s.keys.len() - 1] == s.key);
        lemma_occurrences_push(s.keys, s.key, s.key);
    } else {
        let before = s.keys.drop_last();
        assert(before.push(s.keys.last()) == s.keys);
        assert(before[before.len() - 1] == s.key);
        assert(s.keys[s.keys.len() - 2] == s.key);
        lemma_occurrences_push(before, s.keys.last(), s.key);
        lemma_occurrences_push(s.keys, s.key, s.key);
    }
}

/// A replay that is over without a fourth occurrence has gone through the
/// whole record and applied one move for each of its move actions.
pub proof fn unbroken_replay_applies_every_move(s: ReplayState)
    requires
        s.valid(),
        s.request is Finish,
        !s.cut_off(),
    ensures
        s.cursor == s.actions.len(),
        s.moves.len() == move_indices(s.actions, s.actions.len() as int).len(),
{
}

/// Whether `event` answers `request`.
pub open spec fn answers(request: Request, event: Event) -> bool {
    match (request, event) {
        (Request::Inspect(_), Event::Occupant(_)) => true,
        (Request::Apply(_), Event::Applied(_)) => true,
        (Request::Apply(_), Event::Rejected) => true,
        (Request::Undo(_), Event::Undone) => true,
        _ => false,
    }
}

/// The most answers that a replay in state `s` can still take: two for the
/// action in hand and each action behind it, one less once the occupant is
/// known, one for a move that is to be taken back, none once the replay is
/// over or given up.
pub open spec fn remaining(s: ReplayState) -> nat {
    match s.request {
        Request::Inspect(_) => (2 * (s.actions.len() - s.cursor) + 1) as nat,
        Request::Apply(_) => (2 * (s.actions.len() - s.cursor)) as nat,
        Request::Undo(_) => 1,
        Request::Finish => 0,
        Request::Abort(_) => 0,
    }
}

/// Every answer brings a replay nearer its end: a replay of `n` actions is
/// over or given up after `2 * n + 1` answers at most.
pub proof fn answer_brings_replay_forward(s: ReplayState, event: Event)
    requires
        s.valid(),
        answers(s.request, event),
    ensures
        remaining(next(s, event)) < remaining(s),
        remaining(s) <= 2 * s.actions.len() + 1,
{
    lemma_pending(s.actions, s.cursor + 1);
}

/// A replay asks for nothing more exactly when nothing remains.
pub proof fn replay_ends_when_nothing_remains(s: ReplayState)
    requires
        s.valid(),
    ensures
        remaining(s) == 0 <==> s.request is Finish || s.request is Abort,
{
}

/// Replaying a record without actions asks nothing of the engine: the replay
/// is over at once, no move is applied, the position reached is the starting
/// position, and the repetition table holds the starting hash once and
/// nothing else. No later event changes any of it.
pub proof fn empty_record_leaves_position(key: u64, later: Seq<Event>)
    ensures
        start(Seq::empty(), key).request == Request::Finish,
        start(Seq::empty(), key).moves == Seq::<Move>::empty(),
        start(Seq::empty(), key).key == key,
        tally(start(Seq::empty(), key).keys) == map![key => 1nat],
        run(start(Seq::empty(), key), later) == start(Seq::empty(), key),
{
    lemma_tally_one(key);
    finished_replay_stays(start(Seq::empty(), key), later);
}

/// A record that holds no move replays as the empty record does.
pub proof fn record_without_moves_leaves_position(actions: Seq<csa::Action>, key: u64)
    requires
        forall|i: int| 0 <= i < actions.len() ==> !(#[trigger] actions[i] is Move),
    ensures
        start(actions, key).request == Request::Finish,
        start(actions, key).moves == Seq::<Move>::empty(),
        start(actions, key).key == key,
        tally(start(actions, key).keys) == map![key => 1nat],
{
    lemma_tally_one(key);
    lemma_no_move_pending(actions, 0);
}

proof fn lemma_no_move_pending(actions: Seq<csa::Action>, k: int)
    requires
        0 <= k <= actions.len(),
        forall|i: int| 0 <= i < actions.len() ==> !(#[trigger] actions[i] is Move),
    ensures
        pending(actions, k) == (actions.len() as int, Request::Finish),
    decreases actions.len() - k,
{
    if k < actions.len() {
        assert(!(actions[k] is Move));
        lemma_no_move_pending(actions, k + 1);
    }
}

/// Once a replay is over or given up, it stays as it is whatever is reported.
pub proof fn finished_replay_stays(s: ReplayState, later: Seq<Event>)
    requires
        s.request is Finish || s.request is Abort,
    ensures
        run(s, later) == s,
    decreases later.len(),
{
    if later.len() > 0 {
        finished_replay_stays(s, later.drop_last());
    }
}

/// When a move leads to a position whose hash has occurred three times
/// before, the replay has the move taken back and is over, whatever actions
/// remain: the moves that stand and the position reached are those from before
/// the move, and no later event changes them.
pub proof fn fourth_occurrence_ends_replay(s: ReplayState, m: Move, key: u64, later: Seq<Event>)
    requires
        s.request == Request::Apply(m),
        occurrences(s.keys, key) >= REPETITION_LIMIT - 1,
    ensures
        next(s, Event::Applied(key)).request == Request::Undo(m),
        next(s, Event::Applied(key)).moves == s.moves,
        next(s, Event::Applied(key)).key == s.key,
        next(next(s, Event::Applied(key)), Event::Undone).request == Request::Finish,
        next(next(s, Event::Applied(key)), Event::Undone).moves == s.moves,
        next(next(s, Event::Applied(key)), Event::Undone).key == s.key,
        run(next(next(s, Event::Applied(key)), Event::Undone), later) == next(
            next(s, Event::Applied(key)),
            Event::Undone,
        ),
{
    lemma_occurrences_push(s.keys, key, key);
    finished_replay_stays(next(next(s, Event::Applied(key)), Event::Undone), later);
}

/// When a move leads to a position whose hash has occurred fewer than three
/// times before, the move stands, the position reached is the new one, and
/// the replay goes on with the actions that follow.
pub proof fn earlier_occurrence_goes_on(s: ReplayState, m: Move, key: u64)
    requires
        s.request == Request::Apply(m),
        occurrences(s.keys, key) < REPETITION_LIMIT - 1,
    ensures
        next(s, Event::Applied(key)).moves == s.moves.push(m),
        next(s, Event::Applied(key)).key == key,
        (next(s, Event::Applied(key)).cursor, next(s, Event::Applied(key)).request) == pending(
            s.actions,
            s.cursor + 1,
        ),
        tally(next(s, Event::Applied(key)).keys) == tally(s.keys).insert(
            key,
            occurrences(s.keys, key) + 1,
        ),
{
    lemma_occurrences_push(s.keys, key, key);
    lemma_tally_push(s.keys, key);
}

/// A replay in progress.
pub struct Replay {
    actions: Vec<csa::Action>,
    cursor: usize,
    table: RepetitionTable,
    moves: Vec<Move>,
    key: u64,
    request: Request,
    keys: Ghost<Seq<u64>>,
}

/// Looks for work from action `from` on.
fn settle(actions: &Vec<csa::Action>, from: usize) -> (r: (usize, Request))
    requires
        from <= actions.len(),
    ensures
        (r.0 as int, r.1) == pending(actions@, from as int),
{
    let mut k: usize = from;
    while k < actions.len()
        invariant
            from <= k <= actions.len(),
            pending(actions@, k as int) == pending(actions@, from as int),
        decreases actions.len() - k,
    {
        match origin(&actions[k]) {
            Some(square) => {
                return (k, Request::Inspect(square));
            },
            None => match action2move(&actions[k], None) {
                Ok(None) => {},
                Ok(Some(m)) => {
                    return (k, Request::Apply(m));
                },
                Err(reason) => {
                    return (k, Request::Abort(ReplayError::Untranslatable { index: k, reason }));
                },
            },
        }
        k += 1;
    }
    (k, Request::Finish)
}

impl View for Replay {
    type V = ReplayState;

    closed spec fn view(&self) -> ReplayState {
        ReplayState {
            actions: self.actions@,
            cursor: self.cursor as int,
            keys: self.keys@,
            moves: self.moves@,
            key: self.key,
            request: self.request,
        }
    }
}

impl Replay {
    #[verifier::type_invariant]
    spec fn inv(self) -> bool {
        self@.valid() && self.table@ == tally(self.keys@)
    }

    /// Begins the replay of `actions` on a position with hash `key`.
    pub fn new(actions: Vec<csa::Action>, key: u64) -> (r: Replay)
        ensures
            r@ == start(actions@, key),
            r@.valid(),
    {
        let (cursor, request) = settle(&actions, 0);
        proof {
            assert(actions.len() <= usize::MAX);
            start_is_valid(actions@, key);
            lemma_tally_one(key);
            assert(Seq::<u64>::empty().push(key) == seq![key]);
        }
        let keys = Ghost(Seq::<u64>::empty().push(key));
        Replay {
            actions,
            cursor,
            table: RepetitionTable::new(key),
            moves: Vec::new(),
            key,
            request,
            keys,
        }
    }

    /// Takes the driver's report and moves on.
    pub fn step(self, event: Event) -> (r: Replay)
        ensures
            r@ == next(self@, event),
            r@.valid(),
    {
        proof {
            use_type_invariant(&self);
            next_keeps_valid(self@, event);
        }
        let Replay { actions, cursor, mut table, mut moves, key, request, keys } = self;
        match (request, event) {
            (Request::Inspect(_), Event::Occupant(occupant)) => {
                let request = match action2move(&actions[cursor], occupant) {
                    Ok(Some(m)) => Request::Apply(m),
                    Ok(None) => request,
                    Err(reason) => Request::Abort(
                        ReplayError::Untranslatable { index: cursor, reason },
                    ),
                };
                Replay { actions, cursor, table, moves, key, request, keys }
            },
            (Request::Apply(m), Event::Applied(new_key)) => {
                proof {
                    lemma_tally_push(keys@, new_key);
                    lemma_occurrences_push(keys@, new_key, new_key);
                }
                let n = table.record(new_key);
                let keys = Ghost(keys@.push(new_key));
                if n >= REPETITION_LIMIT {
                    Replay { actions, cursor, table, moves, key, request: Request::Undo(m), keys }
                } else {
                    moves.push(m);
                    let (cursor, request) = settle(&actions, cursor + 1);
                    Replay { actions, cursor, table, moves, key: new_key, request, keys }
                }
            },
            (Request::Apply(_), Event::Rejected) => {
                let request = Request::Abort(ReplayError::IllegalMove { index: cursor, key });
                Replay { actions, cursor, table, moves, key, request, keys }
            },
            (Request::Undo(_), Event::Undone) => {
                Replay { actions, cursor, table, moves, key, request: Request::Finish, keys }
            },
            _ => Replay { actions, cursor, table, moves, key, request, keys },
        }
    }

    /// What the driver has to do next.
    pub fn request(&self) -> (r: Request)
        ensures
            r == self@.request,
    {
        self.request
    }

    /// The number of moves that were applied and stand.
    pub fn applied(&self) -> (n: usize)
        ensures
            n == self@.moves.len(),
    {
        self.moves.len()
    }

    /// The moves that were applied and stand, in order.
    pub fn moves(&self) -> (r: &Vec<Move>)
        ensures
            r@ == self@.moves,
    {
        &self.moves
    }

    /// The hash of the position that the replay has reached.
    pub fn key(&self) -> (r: u64)
        ensures
            r == self@.key,
    {
        self.key
    }

    /// The index of the action in hand, or the number of actions once all are
    /// done.
    pub fn cursor(&self) -> (r: usize)
        ensures
            r == self@.cursor,
    {
        self.cursor
    }

    /// The repetition table: it holds every hash that has occurred, with the
    /// number of its occurrences.
    pub fn table(&self) -> (r: &RepetitionTable)
        ensures
            r@ == tally(self@.keys),
    {
        proof {
            use_type_invariant(self);
        }
        &self.table
    }
}

} // verus!
