//! The reasons for which a call fails.

use vstd::prelude::*;
use crate::symbol::MorseBit;

verus! {

/// Why a call failed. Each failure ends the call: no part of the result is
/// handed out.
#[derive(Debug, PartialEq, Eq)]
pub enum MorseError {
    /// The text holds this character, which has no Morse code.
    UnsupportedCharacter(char),
    /// The symbols hold this chunk, which stands for no character.
    MalformedSequence(Vec<MorseBit>),
    /// The rendering holds this character, which is none of '.', '-', ' '.
    InvalidPrettyChar(char),
}

/// The mathematical value of a [`MorseError`]: the same three reasons, with
/// the chunk as a sequence.
pub enum ErrorView {
    /// The text holds this character, which has no Morse code.
    UnsupportedCharacter(char),
    /// The symbols hold this chunk, which stands for no character.
    MalformedSequence(Seq<MorseBit>),
    /// The rendering holds this character, which is none of '.', '-', ' '.
    InvalidPrettyChar(char),
}

impl View for MorseError {
    type V = ErrorView;

    open spec fn view(&self) -> ErrorView {
        match self {
            MorseError::UnsupportedCharacter(c) => ErrorView::UnsupportedCharacter(*c),
            MorseError::MalformedSequence(chunk) => ErrorView::MalformedSequence(chunk@),
            MorseError::InvalidPrettyChar(c) => ErrorView::InvalidPrettyChar(*c),
        }
    }
}

/// The mathematical value of what a call returned.
pub open spec fn outcome<T: View>(result: Result<T, MorseError>) -> Result<T::V, ErrorView> {
    match result {
        Ok(value) => Ok(value@),
        Err(error) => Err(error@),
    }
}

} // verus!
