//! Turning symbols into timed pulses for a signalling device.

use vstd::prelude::*;
use crate::symbol::MorseBit;
use crate::symbol::MorseBit::{Dah, Dit, LetterSpace, WordSpace};

verus! {

/// The pulses of one symbol, each with the signal level and how many units
/// it lasts. A dit or a dah holds the signal high for its length and then low
/// for one unit; a gap holds it low for its length.
pub open spec fn pulses_of(token: MorseBit) -> Seq<(bool, u64)> {
    match token {
        Dit => seq![(true, 1u64), (false, 1u64)],
        Dah => seq![(true, 3u64), (false, 1u64)],
        LetterSpace => seq![(false, 3u64)],
        WordSpace => seq![(false, 7u64)],
    }
}

/// The pulses of `tokens`: those of its symbols, one after the other.
pub open spec fn durations_spec(tokens: Seq<MorseBit>) -> Seq<(bool, u64)>
    decreases tokens.len(),
{
    if tokens.len() == 0 {
        Seq::empty()
    } else {
        durations_spec(tokens.drop_last()) + pulses_of(tokens.last())
    }
}

/// Turns symbols into pulses. A duration counts units: the caller multiplies
/// it by the time that one dit is to last.
pub fn to_durations(morse_tokens: &[MorseBit]) -> (durations: Vec<(bool, u64)>)
    ensures
        durations@ == durations_spec(morse_tokens@),
{
    let mut durations: Vec<(bool, u64)> = Vec::new();
    for i in 0..morse_tokens.len()
        invariant
            durations@ == durations_spec(morse_tokens@.take(i as int)),
    {
        let token = morse_tokens[i];
        let ghost before = durations@;
        proof {
            assert(morse_tokens@.take(i + 1).drop_last() =~= morse_tokens@.take(i as int));
        }
        if token.is_gap() {
            durations.push((false, token.units()));
        } else {
            durations.push((true, token.units()));
            durations.push((false, 1));
        }
        proof {
            assert(durations@ =~= before + pulses_of(token));
        }
    }
    proof {
        assert(morse_tokens@.take(morse_tokens@.len() as int) =~= morse_tokens@);
    }
    durations
}

} // verus!
