//! The code table: which symbols stand for which character, and back.

use vstd::prelude::*;
use crate::symbol::MorseBit;
use crate::symbol::MorseBit::{Dah, Dit, WordSpace};

verus! {

/// Whether `c` is one of the four whitespace characters that separate words:
/// space, tab, carriage return, line feed.
pub open spec fn is_word_gap(c: char) -> bool {
    c == ' ' || c == '\t' || c == '\r' || c == '\n'
}

/// Whether `c` is a lower-case Latin letter or a decimal digit.
pub open spec fn is_letter_or_digit(c: char) -> bool {
    ('a' <= c && c <= 'z') || ('0' <= c && c <= '9')
}

/// The symbols that stand for the character `c`, without the gap that
/// follows them: the international Morse pattern of a lower-case letter or a
/// digit, a single word gap for whitespace, and `None` for any other
/// character.
pub open spec fn code(c: char) -> Option<Seq<MorseBit>> {
    match c {
        ' ' | '\t' | '\r' | '\n' => Some(seq![WordSpace]),
        'a' => Some(seq![Dit, Dah]),
        'b' => Some(seq![Dah, Dit, Dit, Dit]),
        'c' => Some(seq![Dah, Dit, Dah, Dit]),
        'd' => Some(seq![Dah, Dit, Dit]),
        'e' => Some(seq![Dit]),
        'f' => Some(seq![Dit, Dit, Dah, Dit]),
        'g' => Some(seq![Dah, Dah, Dit]),
        'h' => Some(seq![Dit, Dit, Dit, Dit]),
        'i' => Some(seq![Dit, Dit]),
        'j' => Some(seq![Dit, Dah, Dah, Dah]),
        'k' => Some(seq![Dah, Dit, Dah]),
        'l' => Some(seq![Dit, Dah, Dit, Dit]),
        'm' => Some(seq![Dah, Dah]),
        'n' => Some(seq![Dah, Dit]),
        'o' => Some(seq![Dah, Dah, Dah]),
        'p' => Some(seq![Dit, Dah, Dah, Dit]),
        'q' => Some(seq![Dah, Dah, Dit, Dah]),
        'r' => Some(seq![Dit, Dah, Dit]),
        's' => Some(seq![Dit, Dit, Dit]),
        't' => Some(seq![Dah]),
        'u' => Some(seq![Dit, Dit, Dah]),
        'v' => Some(seq![Dit, Dit, Dit, Dah]),
        'w' => Some(seq![Dit, Dah, Dah]),
        'x' => Some(seq![Dah, Dit, Dit, Dah]),
        'y' => Some(seq![Dah, Dit, Dah, Dah]),
        'z' => Some(seq![Dah, Dah, Dit, Dit]),
        '1' => Some(seq![Dit, Dah, Dah, Dah, Dah]),
        '2' => Some(seq![Dit, Dit, Dah, Dah, Dah]),
        '3' => Some(seq![Dit, Dit, Dit, Dah, Dah]),
        '4' => Some(seq![Dit, Dit, Dit, Dit, Dah]),
        '5' => Some(seq![Dit, Dit, Dit, Dit, Dit]),
        '6' => Some(seq![Dah, Dit, Dit, Dit, Dit]),
        '7' => Some(seq![Dah, Dah, Dit, Dit, Dit]),
        '8' => Some(seq![Dah, Dah, Dah, Dit, Dit]),
        '9' => Some(seq![Dah, Dah, Dah, Dah, Dit]),
        '0' => Some(seq![Dah, Dah, Dah, Dah, Dah]),
        _ => None,
    }
}

/// The character that a chunk of symbols stands for: the reverse of
/// [`code`], by exact match of the whole chunk. A lone word gap stands for a
/// space.
pub open spec fn lookup(chunk: Seq<MorseBit>) -> Option<char> {
    if chunk =~= seq![WordSpace] {
        Some(' ')
    } else if chunk =~= seq![Dit, Dah] {
        Some('a')
    } else if chunk =~= seq![Dah, Dit, Dit, Dit] {
        Some('b')
    } else if chunk =~= seq![Dah, Dit, Dah, Dit] {
        Some('c')
    } else if chunk =~= seq![Dah, Dit, Dit] {
        Some('d')
    } else if chunk =~= seq![Dit] {
        Some('e')
    } else if chunk =~= seq![Dit, Dit, Dah, Dit] {
        Some('f')
    } else if chunk =~= seq![Dah, Dah, Dit] {
        Some('g')
    } else if chunk =~= seq![Dit, Dit, Dit, Dit] {
        Some('h')
    } else if chunk =~= seq![Dit, Dit] {
        Some('i')
    } else if chunk =~= seq![Dit, Dah, Dah, Dah] {
        Some('j')
    } else if chunk =~= seq![Dah, Dit, Dah] {
        Some('k')
    } else if chunk =~= seq![Dit, Dah, Dit, Dit] {
        Some('l')
    } else if chunk =~= seq![Dah, Dah] {
        Some('m')
    } else if chunk =~= seq![Dah, Dit] {
        Some('n')
    } else if chunk =~= seq![Dah, Dah, Dah] {
        Some('o')
    } else if chunk =~= seq![Dit, Dah, Dah, Dit] {
        Some('p')
    } else if chunk =~= seq![Dah, Dah, Dit, Dah] {
        Some('q')
    } else if chunk =~= seq![Dit, Dah, Dit] {
        Some('r')
    } else if chunk =~= seq![Dit, Dit, Dit] {
        Some('s')
    } else if chunk =~= seq![Dah] {
        Some('t')
    } else if chunk =~= seq![Dit, Dit, Dah] {
        Some('u')
    } else if chunk =~= seq![Dit, Dit, Dit, Dah] {
        Some('v')
    } else if chunk =~= seq![Dit, Dah, Dah] {
        Some('w')
    } else if chunk =~= seq![Dah, Dit, Dit, Dah] {
        Some('x')
    } else if chunk =~= seq![Dah, Dit, Dah, Dah] {
        Some('y')
    } else if chunk =~= seq![Dah, Dah, Dit, Dit] {
        Some('z')
    } else if chunk =~= seq![Dit, Dah, Dah, Dah, Dah] {
        Some('1')
    } else if chunk =~= seq![Dit, Dit, Dah, Dah, Dah] {
        Some('2')
    } else if chunk =~= seq![Dit, Dit, Dit, Dah, Dah] {
        Some('3')
    } else if chunk =~= seq![Dit, Dit, Dit, Dit, Dah] {
        Some('4')
    } else if chunk =~= seq![Dit, Dit, Dit, Dit, Dit] {
        Some('5')
    } else if chunk =~= seq![Dah, Dit, Dit, Dit, Dit] {
        Some('6')
    } else if chunk =~= seq![Dah, Dah, Dit, Dit, Dit] {
        Some('7')
    } else if chunk =~= seq![Dah, Dah, Dah, Dit, Dit] {
        Some('8')
    } else if chunk =~= seq![Dah, Dah, Dah, Dah, Dit] {
        Some('9')
    } else if chunk =~= seq![Dah, Dah, Dah, Dah, Dah] {
        Some('0')
    } else {
        None
    }
}

/// Whether `pattern` is made of pulses alone: dits and dahs, no gap.
pub open spec fn is_pulse_pattern(pattern: Seq<MorseBit>) -> bool {
    forall|i: int| 0 <= i < pattern.len() ==> pattern[i] == Dit || pattern[i] == Dah
}

/// The characters with a code are the lower-case letters, the digits and
/// the four whitespace characters, and no others.
pub proof fn lemma_code_domain(c: char)
    ensures
        code(c) is Some <==> is_letter_or_digit(c) || is_word_gap(c),
{
}

/// The code of a letter or digit is one to five pulses; the code of a
/// whitespace character is a single word gap.
pub proof fn lemma_code_shape(c: char)
    ensures
        is_letter_or_digit(c) ==> (code(c) matches Some(pattern) && 1 <= pattern.len() <= 5
            && is_pulse_pattern(pattern)),
        is_word_gap(c) ==> code(c) == Some(seq![WordSpace]),
{
}

/// Looking up the code of a letter, a digit or the space gives the character
/// back. The code of any whitespace character is looked up as the space.
pub proof fn lemma_lookup_of_code(c: char)
    ensures
        is_letter_or_digit(c) ==> (code(c) matches Some(pattern) && lookup(pattern) == Some(c)),
        is_word_gap(c) ==> (code(c) matches Some(pattern) && lookup(pattern) == Some(' ')),
{
    if let Some(pattern) = code(c) {
        // Two patterns of one length differ at one of these places.
        let _ = (pattern[0], pattern[1], pattern[2], pattern[3], pattern[4]);
    }
}

/// A chunk that is looked up as a character is the code of that character,
/// which is a letter, a digit or the space.
pub proof fn lemma_code_of_lookup(chunk: Seq<MorseBit>)
    ensures
        lookup(chunk) matches Some(c) ==> code(c) == Some(chunk) && (is_letter_or_digit(c) || c
            == ' '),
{
}

/// Appends the symbols of `c` to `output` and returns `true`; leaves
/// `output` as it is and returns `false` where `c` has no code.
pub fn push_code(output: &mut Vec<MorseBit>, c: char) -> (known: bool)
    ensures
        known == code(c).is_some(),
        known ==> final(output)@ == old(output)@ + code(c).unwrap(),
        !known ==> final(output)@ == old(output)@,
{
    match c {
        ' ' | '\t' | '\r' | '\n' => {
            output.push(WordSpace);
        },
        'a' => {
            output.push(Dit); output.push(Dah);
        },
        'b' => {
            output.push(Dah); output.push(Dit); output.push(Dit); output.push(Dit);
        },
        'c' => {
            output.push(Dah); output.push(Dit); output.push(Dah); output.push(Dit);
        },
        'd' => {
            output.push(Dah); output.push(Dit); output.push(Dit);
        },
        'e' => {
            output.push(Dit);
        },
        'f' => {
            output.push(Dit); output.push(Dit); output.push(Dah); output.push(Dit);
        },
        'g' => {
            output.push(Dah); output.push(Dah); output.push(Dit);
        },
        'h' => {
            output.push(Dit); output.push(Dit); output.push(Dit); output.push(Dit);
        },
        'i' => {
            output.push(Dit); output.push(Dit);
        },
        'j' => {
            output.push(Dit); output.push(Dah); output.push(Dah); output.push(Dah);
        },
        'k' => {
            output.push(Dah); output.push(Dit); output.push(Dah);
        },
        'l' => {
            output.push(Dit); output.push(Dah); output.push(Dit); output.push(Dit);
        },
        'm' => {
            output.push(Dah); output.push(Dah);
        },
        'n' => {
            output.push(Dah); output.push(Dit);
        },
        'o' => {
            output.push(Dah); output.push(Dah); output.push(Dah);
        },
        'p' => {
            output.push(Dit); output.push(Dah); output.push(Dah); output.push(Dit);
        },
        'q' => {
            output.push(Dah); output.push(Dah); output.push(Dit); output.push(Dah);
        },
        'r' => {
            output.push(Dit); output.push(Dah); output.push(Dit);
        },
        's' => {
            output.push(Dit); output.push(Dit); output.push(Dit);
        },
        't' => {
            output.push(Dah);
        },
        'u' => {
            output.push(Dit); output.push(Dit); output.push(Dah);
        },
        'v' => {
            output.push(Dit); output.push(Dit); output.push(Dit); output.push(Dah);
        },
        'w' => {
            output.push(Dit); output.push(Dah); output.push(Dah);
        },
        'x' => {
            output.push(Dah); output.push(Dit); output.push(Dit); output.push(Dah);
        },
        'y' => {
            output.push(Dah); output.push(Dit); output.push(Dah); output.push(Dah);
        },
        'z' => {
            output.push(Dah); output.push(Dah); output.push(Dit); output.push(Dit);
        },
        '1' => {
            output.push(Dit); output.push(Dah); output.push(Dah); output.push(Dah); output.push(Dah);
        },
        '2' => {
            output.push(Dit); output.push(Dit); output.push(Dah); output.push(Dah); output.push(Dah);
        },
        '3' => {
            output.push(Dit); output.push(Dit); output.push(Dit); output.push(Dah); output.push(Dah);
        },
        '4' => {
            output.push(Dit); output.push(Dit); output.push(Dit); output.push(Dit); output.push(Dah);
        },
        '5' => {
            output.push(Dit); output.push(Dit); output.push(Dit); output.push(Dit); output.push(Dit);
        },
        '6' => {
            output.push(Dah); output.push(Dit); output.push(Dit); output.push(Dit); output.push(Dit);
        },
        '7' => {
            output.push(Dah); output.push(Dah); output.push(Dit); output.push(Dit); output.push(Dit);
        },
        '8' => {
            output.push(Dah); output.push(Dah); output.push(Dah); output.push(Dit); output.push(Dit);
        },
        '9' => {
            output.push(Dah); output.push(Dah); output.push(Dah); output.push(Dah); output.push(Dit);
        },
        '0' => {
            output.push(Dah); output.push(Dah); output.push(Dah); output.push(Dah); output.push(Dah);
        },
        _ => {
            return false;
        },
    }
    true
}

/// Finds the character that `chunk` stands for, if there is one.
pub fn lookup_chunk(chunk: &[MorseBit]) -> (found: Option<char>)
    ensures
        found == lookup(chunk@),
{
    match chunk.len() {
        1 => match chunk[0] {
            WordSpace => Some(' '),
            Dit => Some('e'),
            Dah => Some('t'),
            _ => None,
        },
        2 => match (chunk[0], chunk[1]) {
            (Dit, Dah) => Some('a'),
            (Dit, Dit) => Some('i'),
            (Dah, Dah) => Some('m'),
            (Dah, Dit) => Some('n'),
            _ => None,
        },
        3 => match (chunk[0], chunk[1], chunk[2]) {
            (Dah, Dit, Dit) => Some('d'),
            (Dah, Dah, Dit) => Some('g'),
            (Dah, Dit, Dah) => Some('k'),
            (Dah, Dah, Dah) => Some('o'),
            (Dit, Dah, Dit) => Some('r'),
            (Dit, Dit, Dit) => Some('s'),
            (Dit, Dit, Dah) => Some('u'),
            (Dit, Dah, Dah) => Some('w'),
            _ => None,
        },
        4 => match (chunk[0], chunk[1], chunk[2], chunk[3]) {
            (Dah, Dit, Dit, Dit) => Some('b'),
            (Dah, Dit, Dah, Dit) => Some('c'),
            (Dit, Dit, Dah, Dit) => Some('f'),
            (Dit, Dit, Dit, Dit) => Some('h'),
            (Dit, Dah, Dah, Dah) => Some('j'),
            (Dit, Dah, Dit, Dit) => Some('l'),
            (Dit, Dah, Dah, Dit) => Some('p'),
            (Dah, Dah, Dit, Dah) => Some('q'),
            (Dit, Dit, Dit, Dah) => Some('v'),
            (Dah, Dit, Dit, Dah) => Some('x'),
            (Dah, Dit, Dah, Dah) => Some('y'),
            (Dah, Dah, Dit, Dit) => Some('z'),
            _ => None,
        },
        5 => match (chunk[0], chunk[1], chunk[2], chunk[3], chunk[4]) {
            (Dit, Dah, Dah, Dah, Dah) => Some('1'),
            (Dit, Dit, Dah, Dah, Dah) => Some('2'),
            (Dit, Dit, Dit, Dah, Dah) => Some('3'),
            (Dit, Dit, Dit, Dit, Dah) => Some('4'),
            (Dit, Dit, Dit, Dit, Dit) => Some('5'),
            (Dah, Dit, Dit, Dit, Dit) => Some('6'),
            (Dah, Dah, Dit, Dit, Dit) => Some('7'),
            (Dah, Dah, Dah, Dit, Dit) => Some('8'),
            (Dah, Dah, Dah, Dah, Dit) => Some('9'),
            (Dah, Dah, Dah, Dah, Dah) => Some('0'),
            _ => None,
        },
        _ => None,
    }
}

} // verus!
