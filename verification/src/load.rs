//! The validation of one record: what is read from its text before the
//! replay, and the verdict on the position that the replay reaches.

use vstd::prelude::*;
use vstd::string::StringSliceAdditionalSpecFns;
use crate::compare::{compare, differences, Mismatch};
use crate::final_position::{
    expected_position, final_position, parse_result, FinalPosition, FinalPositionView,
};
use crate::record::{is_parser_safe, parse_moves, parsed_moves, parser_safe};

verus! {

/// A record that is ready for replay.
#[derive(Debug)]
pub struct Record {
    /// The final position that the annotation declares.
    pub expected: FinalPosition,
    /// The actions of the move list, in order.
    pub actions: Vec<csa::Action>,
}

/// Why a record that has an annotation cannot be replayed.
#[derive(Clone, Copy, Debug, PartialEq, Eq, Structural)]
pub enum LoadError {
    /// The text holds a date that does not exist or a move's time that is too
    /// long, on which the record parser would stop the program.
    Hazard,
    /// The record parser takes the text for no record.
    Parse,
}

/// Why the position reached does not confirm the record.
#[derive(Clone, Copy, Debug, PartialEq, Eq, Structural)]
pub enum CheckError {
    /// The rendering of the position reached describes no position.
    Unreadable,
    /// The position reached differs from the position expected.
    Mismatch(Mismatch),
}

/// What is made of an annotation and of the record parser's answer: the
/// record, or the parser's failure.
pub open spec fn assembled(
    expected: FinalPositionView,
    parsed: Option<Seq<csa::Action>>,
) -> Result<(FinalPositionView, Seq<csa::Action>), LoadError> {
    match parsed {
        Some(actions) => Ok((expected, actions)),
        None => Err(LoadError::Parse),
    }
}

/// What loading a text gives, where `parsed` is the record parser's answer on
/// that text: nothing where the text declares no final position, which is no
/// failure; `Hazard` where the text is not safe to parse; else what the
/// annotation and the parser's answer make.
pub open spec fn loaded(bytes: Seq<u8>, parsed: Option<Seq<csa::Action>>) -> Result<
    Option<(FinalPositionView, Seq<csa::Action>)>,
    LoadError,
> {
    match expected_position(bytes) {
        None => Ok(None),
        Some(expected) => if !parser_safe(bytes) {
            Err(LoadError::Hazard)
        } else {
            match assembled(expected, parsed) {
                Ok(record) => Ok(Some(record)),
                Err(e) => Err(e),
            }
        },
    }
}

/// Whether a result of `load` or `assemble` is the one that `model` describes.
pub open spec fn load_agrees(
    r: Result<Option<Record>, LoadError>,
    model: Result<Option<(FinalPositionView, Seq<csa::Action>)>, LoadError>,
) -> bool {
    match (r, model) {
        (Ok(None), Ok(None)) => true,
        (Ok(Some(record)), Ok(Some(pair))) => record.expected@ == pair.0 && record.actions@
            == pair.1,
        (Err(e), Err(f)) => e == f,
        _ => false,
    }
}

/// Puts an annotation and the record parser's answer together: the record
/// where the parser read one, `LoadError::Parse` where it did not.
pub fn assemble(expected: FinalPosition, parsed: Result<Vec<csa::Action>, csa::CsaError>) -> (r:
    Result<Record, LoadError>)
    ensures
        parsed matches Ok(actions) ==> r matches Ok(record) && record.expected == expected
            && record.actions == actions,
        parsed is Err ==> r == Err::<Record, LoadError>(LoadError::Parse),
{
    match parsed {
        Ok(actions) => Ok(Record { expected, actions }),
        Err(_) => Err(LoadError::Parse),
    }
}

/// Reads from a record's text what its replay needs: the final position
/// that the annotation declares and the actions of the move list.
///
/// A text without an annotation in order gives `Ok(None)`: there is nothing
/// to validate. A text with one is handed to the record parser, unless it is
/// not safe to parse.
pub fn load(text: &str) -> (r: Result<Option<Record>, LoadError>)
    ensures
        load_agrees(r, loaded(text.spec_bytes(), parsed_moves(text@))),
{
    let expected = match parse_result(text) {
        Some(expected) => expected,
        None => {
            return Ok(None);
        },
    };
    if !is_parser_safe(text.as_bytes()) {
        return Err(LoadError::Hazard);
    }
    match assemble(expected, parse_moves(text)) {
        Ok(record) => Ok(Some(record)),
        Err(e) => Err(e),
    }
}

/// The verdict on a rendering of the position reached: `Unreadable` where it
/// describes no position, else the comparison with the position expected.
pub open spec fn verdict(expected: FinalPositionView, rendering: Seq<u8>) -> Result<
    (),
    CheckError,
> {
    match final_position(rendering) {
        None => Err(CheckError::Unreadable),
        Some(reached) => if expected == reached {
            Ok(())
        } else {
            Err(CheckError::Mismatch(differences(expected, reached)))
        },
    }
}

/// Holds the rendering of the position that a replay reached against the
/// position that the record expects.
pub fn check(expected: &FinalPosition, rendering: &str) -> (r: Result<(), CheckError>)
    ensures
        r == verdict(expected@, rendering.spec_bytes()),
{
    match FinalPosition::from(rendering) {
        None => Err(CheckError::Unreadable),
        Some(reached) => match compare(expected, &reached) {
            Ok(()) => Ok(()),
            Err(m) => Err(CheckError::Mismatch(m)),
        },
    }
}

} // verus!
