//! What comes back when encoded text is decoded.
//!
//! Every character leaves its code and one letter gap. The tokenizer takes a
//! word gap at the head of the stream by itself and leaves the letter gap
//! behind it for the next chunk to drop. A letter gap left behind at the
//! very end of the stream is read as an empty chunk, which stands for no
//! character. So text comes back exactly where it does not end in an odd
//! number of whitespace characters.

use vstd::prelude::*;
use crate::codec::{decode_spec, encode_spec, lemma_encode_concat, lemma_encode_succeeds};
use crate::error::ErrorView;
use crate::symbol::MorseBit;
use crate::symbol::MorseBit::{LetterSpace, WordSpace};
use crate::table::{
    code,
    is_letter_or_digit,
    is_word_gap,
    lemma_code_domain,
    lemma_code_shape,
    lemma_lookup_of_code,
};
use crate::tokenizer::{
    gap_before,
    lemma_leading_gaps_is,
    lemma_next_chunk_of_framed,
    lemma_next_chunk_of_last,
    lemma_run_len_is,
    next_chunk,
};

verus! {

/// The character that comes back for `c`: a space for any whitespace, and
/// `c` itself otherwise.
pub open spec fn decoded_char(c: char) -> char {
    if is_word_gap(c) {
        ' '
    } else {
        c
    }
}

/// The text that comes back for `text`: each whitespace character has become
/// a space, and nothing else has changed.
pub open spec fn decoded_text(text: Seq<char>) -> Seq<char> {
    Seq::new(text.len(), |i: int| decoded_char(text[i]))
}

/// How many whitespace characters stand at the end of `text`.
pub open spec fn trailing_word_gaps(text: Seq<char>) -> nat
    decreases text.len(),
{
    if text.len() > 0 && is_word_gap(text.last()) {
        1 + trailing_word_gaps(text.drop_last())
    } else {
        0
    }
}

/// Whether a letter gap is left behind once `text` has been read, where one
/// was left behind before it or not (`pending`). Only a word gap that is read
/// with no gap pending leaves its letter gap behind.
spec fn pending_after(text: Seq<char>, pending: bool) -> bool
    decreases text.len(),
{
    if text.len() == 0 {
        pending
    } else {
        is_word_gap(text.last()) && !pending_after(text.drop_last(), pending)
    }
}

/// What decoding gives for the symbols of `text` behind a pending letter
/// gap, or behind none.
spec fn decoded_after(text: Seq<char>, pending: bool) -> Result<Seq<char>, ErrorView> {
    if pending_after(text, pending) {
        Err(ErrorView::MalformedSequence(Seq::empty()))
    } else {
        Ok(decoded_text(text))
    }
}

/// `pending_after` read from the first character on.
proof fn lemma_pending_after_first(text: Seq<char>, pending: bool)
    requires
        text.len() > 0,
    ensures
        pending_after(text, pending) == pending_after(
            text.skip(1),
            is_word_gap(text[0]) && !pending,
        ),
    decreases text.len(),
{
    let rest = text.skip(1);
    let front = text.drop_last();
    if rest.len() == 0 {
        assert(pending_after(front, pending) == pending);
        assert(text.last() == text[0]);
    } else {
        assert(front.skip(1) =~= rest.drop_last());
        assert(front[0] == text[0]);
        assert(rest.last() == text.last());
        lemma_pending_after_first(front, pending);
    }
}

/// With nothing pending at the start, a letter gap is left behind exactly
/// where the text ends in an odd number of whitespace characters.
proof fn lemma_pending_is_odd(text: Seq<char>)
    ensures
        pending_after(text, false) == (trailing_word_gaps(text) % 2 == 1),
    decreases text.len(),
{
    if text.len() > 0 {
        lemma_pending_is_odd(text.drop_last());
    }
}

/// A letter gap alone is read as an empty chunk.
proof fn lemma_decode_lone_gap()
    ensures
        decode_spec(seq![LetterSpace]) == Err::<Seq<char>, ErrorView>(
            ErrorView::MalformedSequence(Seq::empty()),
        ),
{
    let stream = seq![LetterSpace];
    lemma_leading_gaps_is(stream, 1);
    let body = stream.skip(1);
    lemma_run_len_is(body, 0);
    assert(body.take(0) =~= Seq::<MorseBit>::empty());
    assert(next_chunk(stream).0 =~= Seq::<MorseBit>::empty());
}

/// Decoding the symbols of a text, behind a pending letter gap or behind
/// none, gives the text back unless a letter gap is left behind at the end.
proof fn lemma_decode_encoded(text: Seq<char>, pending: bool)
    requires
        encode_spec(text) is Ok,
    ensures
        encode_spec(text) matches Ok(symbols) && decode_spec(gap_before(pending) + symbols)
            == decoded_after(text, pending),
    decreases text.len(),
{
    let symbols = encode_spec(text)->Ok_0;
    let stream = gap_before(pending) + symbols;
    if text.len() == 0 {
        assert(decoded_text(text) =~= Seq::<char>::empty());
        if pending {
            assert(stream =~= seq![LetterSpace]);
            lemma_decode_lone_gap();
        } else {
            assert(stream =~= Seq::<MorseBit>::empty());
        }
    } else {
        let c = text[0];
        let rest = text.skip(1);
        assert(text =~= seq![c] + rest);
        lemma_encode_concat(seq![c], rest);
        assert(seq![c].drop_last() =~= Seq::<char>::empty());
        assert(encode_spec(Seq::<char>::empty()) == Ok::<Seq<MorseBit>, ErrorView>(Seq::empty()));
        let pattern = code(c)->Some_0;
        let rest_symbols = encode_spec(rest)->Ok_0;
        assert(encode_spec(seq![c]) == Ok::<Seq<MorseBit>, ErrorView>(
            Seq::<MorseBit>::empty() + pattern + seq![LetterSpace],
        ));
        lemma_code_domain(c);
        lemma_code_shape(c);
        lemma_lookup_of_code(c);
        let leaves_gap = is_word_gap(c) && !pending;
        lemma_decode_encoded(rest, leaves_gap);
        lemma_pending_after_first(text, pending);
        assert(decoded_text(text) =~= seq![decoded_char(c)] + decoded_text(rest));
        if leaves_gap {
            assert(stream =~= seq![WordSpace] + (gap_before(true) + rest_symbols));
            assert(stream.take(1) =~= seq![WordSpace]);
            assert(stream.skip(1) =~= gap_before(true) + rest_symbols);
        } else {
            assert(stream =~= gap_before(pending) + pattern + seq![LetterSpace] + rest_symbols);
            lemma_next_chunk_of_framed(pending, pattern, rest_symbols);
            assert(gap_before(false) + rest_symbols =~= rest_symbols);
        }
    }
}

/// Text that is encoded and decoded comes back, with a space for each
/// whitespace character, where each of its characters has a code and it
/// does not end in an odd number of whitespace characters.
pub proof fn lemma_round_trip(text: Seq<char>)
    requires
        encode_spec(text) is Ok,
        trailing_word_gaps(text) % 2 == 0,
    ensures
        encode_spec(text) matches Ok(symbols) && decode_spec(symbols) == Ok::<
            Seq<char>,
            ErrorView,
        >(decoded_text(text)),
{
    lemma_decode_encoded(text, false);
    lemma_pending_is_odd(text);
    let symbols = encode_spec(text)->Ok_0;
    assert(gap_before(false) + symbols =~= symbols);
}

/// Text that ends in an odd number of whitespace characters does not come
/// back: the letter gap behind its last word gap is read as an empty chunk.
pub proof fn lemma_round_trip_odd_end(text: Seq<char>)
    requires
        encode_spec(text) is Ok,
        trailing_word_gaps(text) % 2 == 1,
    ensures
        encode_spec(text) matches Ok(symbols) && decode_spec(symbols) == Err::<
            Seq<char>,
            ErrorView,
        >(ErrorView::MalformedSequence(Seq::empty())),
{
    lemma_decode_encoded(text, false);
    lemma_pending_is_odd(text);
    let symbols = encode_spec(text)->Ok_0;
    assert(gap_before(false) + symbols =~= symbols);
}

/// Text made of letters, digits and single spaces between them comes back
/// unchanged. This is the round trip for text without whitespace at its end
/// and with no whitespace but the space.
pub proof fn lemma_round_trip_exact(text: Seq<char>)
    requires
        forall|i: int| 0 <= i < text.len() ==> is_letter_or_digit(text[i]) || text[i] == ' ',
        trailing_word_gaps(text) % 2 == 0,
    ensures
        encode_spec(text) matches Ok(symbols) && decode_spec(symbols) == Ok::<
            Seq<char>,
            ErrorView,
        >(text),
{
    assert forall|i: int| 0 <= i < text.len() implies code(text[i]) is Some by {
        lemma_code_domain(text[i]);
    }
    lemma_encode_succeeds(text);
    lemma_round_trip(text);
    assert(decoded_text(text) =~= text);
}

/// The code of a single letter, digit or space decodes to that character,
/// and so does the encoding of a single letter or digit, which has a letter
/// gap behind the code.
pub proof fn lemma_single_character(c: char)
    requires
        is_letter_or_digit(c) || c == ' ',
    ensures
        code(c) matches Some(pattern) && decode_spec(pattern) == Ok::<Seq<char>, ErrorView>(
            seq![c],
        ),
        is_letter_or_digit(c) ==> (encode_spec(seq![c]) matches Ok(symbols) && decode_spec(symbols)
            == Ok::<Seq<char>, ErrorView>(seq![c])),
{
    lemma_code_domain(c);
    lemma_code_shape(c);
    lemma_lookup_of_code(c);
    let pattern = code(c)->Some_0;
    lemma_next_chunk_of_last(pattern);
    assert(decode_spec(Seq::<MorseBit>::empty()) == Ok::<Seq<char>, ErrorView>(Seq::empty()));
    assert(seq![c] + Seq::<char>::empty() =~= seq![c]);
    if is_letter_or_digit(c) {
        assert(seq![c].drop_last() =~= Seq::<char>::empty());
        lemma_encode_succeeds(seq![c]);
        assert(trailing_word_gaps(seq![c]) == 0);
        lemma_round_trip(seq![c]);
        assert(decoded_text(seq![c]) =~= seq![c]);
    }
}

} // verus!
