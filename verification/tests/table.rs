use morse_codec::table::{lookup_chunk, push_code};
use morse_codec::MorseBit::{Dah, Dit, LetterSpace, WordSpace};

#[test]
fn push_code_appends_the_pattern() {
    let mut output = vec![LetterSpace];
    assert!(push_code(&mut output, 'q'));
    assert_eq!(output, vec![LetterSpace, Dah, Dah, Dit, Dah]);
    assert!(push_code(&mut output, '\n'));
    assert_eq!(output, vec![LetterSpace, Dah, Dah, Dit, Dah, WordSpace]);
    assert!(push_code(&mut output, '5'));
    assert_eq!(
        output,
        vec![LetterSpace, Dah, Dah, Dit, Dah, WordSpace, Dit, Dit, Dit, Dit, Dit]
    );
}

#[test]
fn push_code_leaves_the_output_where_there_is_no_code() {
    let mut output = vec![Dit];
    assert!(!push_code(&mut output, 'Q'));
    assert!(!push_code(&mut output, '+'));
    assert!(!push_code(&mut output, '\u{a0}'));
    assert_eq!(output, vec![Dit]);
}

#[test]
fn lookup_chunk_matches_the_whole_chunk() {
    assert_eq!(lookup_chunk(&[Dit]), Some('e'));
    assert_eq!(lookup_chunk(&[Dit, Dit]), Some('i'));
    assert_eq!(lookup_chunk(&[Dit, Dit, Dit]), Some('s'));
    assert_eq!(lookup_chunk(&[Dit, Dit, Dit, Dit]), Some('h'));
    assert_eq!(lookup_chunk(&[Dit, Dit, Dit, Dit, Dit]), Some('5'));
    assert_eq!(lookup_chunk(&[Dit, Dit, Dit, Dit, Dit, Dit]), None);
    assert_eq!(lookup_chunk(&[WordSpace]), Some(' '));
}

#[test]
fn lookup_chunk_knows_no_other_chunk() {
    assert_eq!(lookup_chunk(&[]), None);
    assert_eq!(lookup_chunk(&[LetterSpace]), None);
    assert_eq!(lookup_chunk(&[WordSpace, WordSpace]), None);
    assert_eq!(lookup_chunk(&[Dit, LetterSpace]), None);
    assert_eq!(lookup_chunk(&[Dit, Dah, Dit, Dah]), None);
    assert_eq!(lookup_chunk(&[Dit, Dit, Dah, Dah]), None);
    assert_eq!(lookup_chunk(&[Dah, Dah, Dah, Dit]), None);
    assert_eq!(lookup_chunk(&[Dah, Dah, Dah, Dah]), None);
    assert_eq!(lookup_chunk(&[Dit, Dah, Dit, Dah, Dit]), None);
}
