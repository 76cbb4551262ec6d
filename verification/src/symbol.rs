//! The four signal primitives of Morse code.

use vstd::prelude::*;

verus! {

/// One primitive of a Morse signal.
#[derive(Debug, Copy, Clone, Hash, PartialEq, Eq, Structural)]
pub enum MorseBit {
    /// Dit, or dot, or (.): the short pulse, one unit long.
    Dit,
    /// Dah, or dash, or (-): the long pulse, as long as three dits.
    Dah,
    /// The gap between two letters of a word, as long as three dits.
    LetterSpace,
    /// The gap between two words, as long as seven dits.
    WordSpace,
}

impl MorseBit {
    /// The length of the symbol, counted in dits.
    pub open spec fn spec_units(self) -> u64 {
        match self {
            MorseBit::Dit => 1,
            MorseBit::Dah => 3,
            MorseBit::LetterSpace => 3,
            MorseBit::WordSpace => 7,
        }
    }

    /// Whether the symbol is a gap (signal off) rather than a pulse.
    pub open spec fn spec_is_gap(self) -> bool {
        self == MorseBit::LetterSpace || self == MorseBit::WordSpace
    }

    /// The length of the symbol, counted in dits.
    #[verifier::when_used_as_spec(spec_units)]
    pub fn units(self) -> (n: u64)
        ensures
            n == self.spec_units(),
    {
        match self {
            MorseBit::Dit => 1,
            MorseBit::Dah => 3,
            MorseBit::LetterSpace => 3,
            MorseBit::WordSpace => 7,
        }
    }

    /// Whether the symbol is a gap (signal off) rather than a pulse.
    #[verifier::when_used_as_spec(spec_is_gap)]
    pub fn is_gap(self) -> (gap: bool)
        ensures
            gap == self.spec_is_gap(),
    {
        match self {
            MorseBit::Dit | MorseBit::Dah => false,
            MorseBit::LetterSpace | MorseBit::WordSpace => true,
        }
    }
}

} // verus!
