use morse_codec::MorseBit::{Dah, Dit, LetterSpace, WordSpace};
use morse_codec::{decode, encode, from_pretty, to_pretty, MorseError};

#[test]
fn to_pretty_of_nothing_is_empty() {
    assert_eq!(to_pretty(&[]), "");
}

#[test]
fn to_pretty_writes_dots_and_dashes() {
    assert_eq!(to_pretty(&[Dit]), ".");
    assert_eq!(to_pretty(&[Dah]), "-");
    assert_eq!(to_pretty(&[Dit, Dah]), ".-");
    assert_eq!(to_pretty(&[Dah, Dit, Dit, Dit]), "-...");
}

#[test]
fn to_pretty_writes_one_space_for_a_letter_gap_and_two_for_a_word_gap() {
    assert_eq!(to_pretty(&[Dit, LetterSpace, Dah]), ". -");
    assert_eq!(to_pretty(&[Dit, WordSpace, Dah]), ".  -");
}

#[test]
fn to_pretty_writes_nothing_for_a_gap_behind_a_gap() {
    assert_eq!(to_pretty(&[Dit, LetterSpace, LetterSpace, Dah]), ". -");
    assert_eq!(to_pretty(&[Dit, LetterSpace, WordSpace, LetterSpace, Dah]), ". -");
    assert_eq!(to_pretty(&[Dit, WordSpace, LetterSpace, Dah]), ".  -");
    assert_eq!(to_pretty(&[Dit, WordSpace, WordSpace, Dah]), ".  -");
}

#[test]
fn to_pretty_writes_nothing_for_a_gap_at_the_head() {
    assert_eq!(to_pretty(&[LetterSpace, Dit]), ".");
    assert_eq!(to_pretty(&[WordSpace, Dit]), ".");
    assert_eq!(to_pretty(&[WordSpace, LetterSpace, LetterSpace]), "");
}

#[test]
fn to_pretty_of_an_encoded_letter_ends_with_the_space_of_its_gap() {
    let rendering = to_pretty(&encode("a").unwrap());
    assert_eq!(rendering, ".- ");
    assert_eq!(rendering.trim_end(), ".-");
}

#[test]
fn to_pretty_of_encoded_words() {
    assert_eq!(to_pretty(&encode("sos").unwrap()), "... --- ... ");
    // The letter gap behind the word gap adds nothing to the single space
    // of the letter gap before it.
    assert_eq!(to_pretty(&encode("e t").unwrap()), ". - ");
    assert_eq!(to_pretty(&encode(" e").unwrap()), ". ");
}

#[test]
fn from_pretty_reads_dots_dashes_and_spaces() {
    assert_eq!(from_pretty("").unwrap(), vec![]);
    assert_eq!(from_pretty(".-").unwrap(), vec![Dit, Dah]);
    assert_eq!(from_pretty("-. .").unwrap(), vec![Dah, Dit, LetterSpace, Dit]);
}

#[test]
fn from_pretty_reads_two_spaces_as_two_letter_gaps() {
    assert_eq!(from_pretty(".  -").unwrap(), vec![Dit, LetterSpace, LetterSpace, Dah]);
}

#[test]
fn from_pretty_rejects_any_other_character() {
    assert_eq!(from_pretty(".-x"), Err(MorseError::InvalidPrettyChar('x')));
    assert_eq!(from_pretty("_.-"), Err(MorseError::InvalidPrettyChar('_')));
    assert_eq!(from_pretty(".\t-/"), Err(MorseError::InvalidPrettyChar('\t')));
    assert_eq!(from_pretty("\u{2212}"), Err(MorseError::InvalidPrettyChar('\u{2212}')));
}

#[test]
fn a_rendering_decodes_to_its_letters() {
    assert_eq!(decode(&from_pretty(".-").unwrap()).unwrap(), "a");
    assert_eq!(decode(&from_pretty("... --- ...").unwrap()).unwrap(), "sos");
    let rendering = to_pretty(&encode("hello").unwrap());
    assert_eq!(decode(&from_pretty(&rendering).unwrap()).unwrap(), "hello");
}
