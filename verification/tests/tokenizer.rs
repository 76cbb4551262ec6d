use morse_codec::get_next_morse;
use morse_codec::MorseBit;
use morse_codec::MorseBit::{Dah, Dit, LetterSpace, WordSpace};

fn split(stream: &[MorseBit]) -> (Vec<MorseBit>, Vec<MorseBit>) {
    let (chunk, tail) = get_next_morse(stream);
    (chunk.to_vec(), tail.to_vec())
}

#[test]
fn a_word_gap_at_the_head_is_a_chunk_by_itself() {
    assert_eq!(split(&[WordSpace]), (vec![WordSpace], vec![]));
    assert_eq!(
        split(&[WordSpace, LetterSpace, Dit]),
        (vec![WordSpace], vec![LetterSpace, Dit])
    );
    assert_eq!(split(&[WordSpace, Dit, Dah]), (vec![WordSpace], vec![Dit, Dah]));
    assert_eq!(split(&[WordSpace, WordSpace]), (vec![WordSpace], vec![WordSpace]));
}

#[test]
fn a_chunk_runs_up_to_the_next_letter_gap() {
    assert_eq!(
        split(&[Dit, Dah, LetterSpace, Dah, LetterSpace]),
        (vec![Dit, Dah], vec![Dah, LetterSpace])
    );
    assert_eq!(
        split(&[Dit, WordSpace, Dah, LetterSpace, Dit]),
        (vec![Dit, WordSpace, Dah], vec![Dit])
    );
}

#[test]
fn only_one_letter_gap_is_dropped_behind_a_chunk() {
    assert_eq!(
        split(&[Dit, LetterSpace, LetterSpace, Dah]),
        (vec![Dit], vec![LetterSpace, Dah])
    );
    assert_eq!(split(&[Dit, LetterSpace, LetterSpace]), (vec![Dit], vec![LetterSpace]));
}

#[test]
fn a_letter_gap_at_the_end_is_dropped_with_the_chunk() {
    assert_eq!(split(&[Dit, Dah, LetterSpace]), (vec![Dit, Dah], vec![]));
}

#[test]
fn a_stream_without_a_letter_gap_is_one_chunk() {
    assert_eq!(split(&[Dit, Dah, Dah]), (vec![Dit, Dah, Dah], vec![]));
    assert_eq!(split(&[Dit]), (vec![Dit], vec![]));
}

#[test]
fn letter_gaps_at_the_head_are_dropped() {
    assert_eq!(
        split(&[LetterSpace, LetterSpace, Dit, LetterSpace, Dah]),
        (vec![Dit], vec![Dah])
    );
    assert_eq!(
        split(&[LetterSpace, WordSpace, LetterSpace, Dah]),
        (vec![WordSpace], vec![Dah])
    );
}

#[test]
fn nothing_but_letter_gaps_gives_an_empty_chunk() {
    assert_eq!(split(&[]), (vec![], vec![]));
    assert_eq!(split(&[LetterSpace]), (vec![], vec![]));
    assert_eq!(split(&[LetterSpace, LetterSpace, LetterSpace]), (vec![], vec![]));
}
