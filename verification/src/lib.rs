//! Validation of recorded shogi games against a rules engine: the final
//! position that a record's annotation declares is compared with the position
//! reached by replaying the record's moves.
//!
//! One record is validated in three steps. `load::load` reads the expected
//! final position and the actions from the record's text. `replay::Replay`
//! then leads a driver, which owns the engine's position, through the
//! actions: it translates each move, counts the positions by their hashes,
//! and stops where one occurs for the fourth time. At the end `load::check`
//! holds the engine's rendering of the position reached against the position
//! expected.

pub mod compare;
pub mod final_position;
pub mod load;
pub mod piece;
pub mod record;
pub mod repetition;
pub mod replay;
pub mod text;
pub mod token;
pub mod translate;
