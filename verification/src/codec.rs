//! Encoding text as symbols and decoding symbols as text.

use vstd::prelude::*;
use vstd::slice::slice_to_vec;
use crate::error::{outcome, ErrorView, MorseError};
use crate::symbol::MorseBit;
use crate::symbol::MorseBit::LetterSpace;
use crate::table::{code, lemma_code_domain, lemma_code_shape, lookup, lookup_chunk, push_code};
use crate::text::{lowercase, to_lowercase};
use crate::tokenizer::{chunks, get_next_morse, lemma_next_chunk, next_chunk};

verus! {

/// The symbols of a text: for each character in turn its code and one
/// letter gap. The first character without a code makes the whole text fail.
pub open spec fn encode_spec(text: Seq<char>) -> Result<Seq<MorseBit>, ErrorView>
    decreases text.len(),
{
    if text.len() == 0 {
        Ok(Seq::empty())
    } else {
        match encode_spec(text.drop_last()) {
            Err(error) => Err(error),
            Ok(symbols) => match code(text.last()) {
                None => Err(ErrorView::UnsupportedCharacter(text.last())),
                Some(pattern) => Ok(symbols + pattern + seq![LetterSpace]),
            },
        }
    }
}

/// A decoding with `head` put in front of the text, where there is a text.
pub open spec fn prepend(head: Seq<char>, decoded: Result<Seq<char>, ErrorView>) -> Result<
    Seq<char>,
    ErrorView,
> {
    match decoded {
        Ok(text) => Ok(head + text),
        Err(error) => Err(error),
    }
}

/// The text of a stream of symbols: one character for each chunk in turn.
/// The first chunk that stands for no character makes the whole stream fail.
pub open spec fn decode_spec(stream: Seq<MorseBit>) -> Result<Seq<char>, ErrorView>
    decreases stream.len(),
    via decode_spec_decreases
{
    if stream.len() == 0 {
        Ok(Seq::empty())
    } else {
        let (chunk, tail) = next_chunk(stream);
        match lookup(chunk) {
            None => Err(ErrorView::MalformedSequence(chunk)),
            Some(c) => prepend(seq![c], decode_spec(tail)),
        }
    }
}

#[via_fn]
proof fn decode_spec_decreases(stream: Seq<MorseBit>) {
    lemma_next_chunk(stream);
}

/// Encodes text that is in lower case already as symbols. Nothing is
/// folded: an upper-case letter is unsupported here.
pub fn encode_lowercase(text: &str) -> (result: Result<Vec<MorseBit>, MorseError>)
    ensures
        outcome(result) == encode_spec(text@),
{
    let mut output: Vec<MorseBit> = Vec::new();
    let chars = text.chars();
    for c in it: chars
        invariant
            it.seq() == text@,
            encode_spec(text@.take(it.index())) == Ok::<Seq<MorseBit>, ErrorView>(output@),
    {
        let ghost before = output@;
        proof {
            assert(text@.take(it.index() + 1).drop_last() =~= text@.take(it.index()));
            assert(text@.take(it.index() + 1).last() == c);
        }
        if !push_code(&mut output, c) {
            proof {
                lemma_encode_prefix_error(text@, it.index() + 1);
            }
            return Err(MorseError::UnsupportedCharacter(c));
        }
        output.push(LetterSpace);
        proof {
            assert(output@ =~= before + code(c).unwrap() + seq![LetterSpace]);
        }
    }
    proof {
        assert(text@.take(text@.len() as int) =~= text@);
    }
    Ok(output)
}

/// Encodes text as symbols: the text is put in lower case, and then
/// each character gives its code and one letter gap.
pub fn encode(message: &str) -> (result: Result<Vec<MorseBit>, MorseError>)
    ensures
        outcome(result) == encode_spec(lowercase(message@)),
{
    let lowered = to_lowercase(message);
    encode_lowercase(lowered.as_str())
}

/// Decodes symbols as text, chunk by chunk.
pub fn decode(stream: &[MorseBit]) -> (result: Result<String, MorseError>)
    ensures
        outcome(result) == decode_spec(stream@),
{
    let mut output = String::new();
    let mut rest = stream;
    while rest.len() > 0
        invariant
            decode_spec(stream@) == prepend(output@, decode_spec(rest@)),
        decreases rest@.len(),
    {
        let (chunk, tail) = get_next_morse(rest);
        match lookup_chunk(chunk) {
            Some(c) => {
                proof {
                    let after = decode_spec(tail@);
                    if let Ok(text) = after {
                        assert(output@ + (seq![c] + text) =~= output@.push(c) + text);
                    }
                }
                output.push(c);
            },
            None => {
                return Err(MorseError::MalformedSequence(slice_to_vec(chunk)));
            },
        }
        rest = tail;
    }
    proof {
        assert(output@ + Seq::<char>::empty() =~= output@);
    }
    Ok(output)
}

/// An unsupported character in a prefix of the text fails the whole text
/// with the same error.
pub proof fn lemma_encode_prefix_error(text: Seq<char>, n: int)
    requires
        0 <= n <= text.len(),
        encode_spec(text.take(n)) is Err,
    ensures
        encode_spec(text) == encode_spec(text.take(n)),
    decreases text.len() - n,
{
    if n < text.len() {
        assert(text.take(n + 1).drop_last() =~= text.take(n));
        lemma_encode_prefix_error(text, n + 1);
    } else {
        assert(text.take(n) =~= text);
    }
}

/// Two encodings one after the other, where both are there; else the
/// error of the first that failed.
pub open spec fn join(
    first: Result<Seq<MorseBit>, ErrorView>,
    second: Result<Seq<MorseBit>, ErrorView>,
) -> Result<Seq<MorseBit>, ErrorView> {
    match first {
        Err(error) => Err(error),
        Ok(head) => match second {
            Err(error) => Err(error),
            Ok(tail) => Ok(head + tail),
        },
    }
}

/// Encoding goes character by character: the symbols of two texts put
/// together are the symbols of the first and then those of the second.
pub proof fn lemma_encode_concat(first: Seq<char>, second: Seq<char>)
    ensures
        encode_spec(first + second) == join(encode_spec(first), encode_spec(second)),
    decreases second.len(),
{
    let whole = first + second;
    if second.len() == 0 {
        assert(whole =~= first);
        if let Ok(head) = encode_spec(first) {
            assert(head + Seq::<MorseBit>::empty() =~= head);
        }
    } else {
        assert(whole.drop_last() =~= first + second.drop_last());
        assert(whole.last() == second.last());
        lemma_encode_concat(first, second.drop_last());
        if let Ok(head) = encode_spec(first) {
            if let Ok(tail) = encode_spec(second.drop_last()) {
                if let Some(pattern) = code(second.last()) {
                    assert((head + tail) + pattern + seq![LetterSpace] =~= head + (tail + pattern
                        + seq![LetterSpace]));
                }
            }
        }
    }
}

/// The symbols of a text end with the letter gap of its last character, and
/// there are at least two of them for each character.
pub proof fn lemma_encoded_ends_with_gap(text: Seq<char>)
    ensures
        encode_spec(text) matches Ok(symbols) ==> symbols.len() >= 2 * text.len() && (text.len() > 0
            ==> symbols.last() == LetterSpace),
    decreases text.len(),
{
    if text.len() > 0 {
        lemma_encoded_ends_with_gap(text.drop_last());
        lemma_code_domain(text.last());
        lemma_code_shape(text.last());
    }
}

/// A text is encoded if and only if each of its characters has a code.
pub proof fn lemma_encode_succeeds(text: Seq<char>)
    ensures
        encode_spec(text) is Ok <==> forall|i: int| 0 <= i < text.len() ==> code(text[i]) is Some,
    decreases text.len(),
{
    if text.len() > 0 {
        let front = text.drop_last();
        lemma_encode_succeeds(front);
        if encode_spec(text) is Ok {
            assert forall|i: int| 0 <= i < text.len() implies code(text[i]) is Some by {
                if i < front.len() {
                    assert(text[i] == front[i]);
                }
            }
        } else if encode_spec(front) is Ok {
            assert(code(text[text.len() - 1]) is None);
        } else {
            let i = choose|i: int| 0 <= i < front.len() && !(code(front[i]) is Some);
            assert(text[i] == front[i]);
        }
    }
}

/// Encoding fails on the first character without a code, and names it.
pub proof fn lemma_encode_rejects(text: Seq<char>, at: int)
    requires
        0 <= at < text.len(),
        code(text[at]) is None,
        forall|i: int| 0 <= i < at ==> code(text[i]) is Some,
    ensures
        encode_spec(text) == Err::<Seq<MorseBit>, ErrorView>(
            ErrorView::UnsupportedCharacter(text[at]),
        ),
{
    let upto = text.take(at + 1);
    assert(upto.drop_last() =~= text.take(at));
    lemma_encode_succeeds(text.take(at));
    lemma_encode_prefix_error(text, at + 1);
}

/// Where encoding fails, the character that it names has no code.
pub proof fn lemma_encode_error(text: Seq<char>)
    ensures
        encode_spec(text) matches Err(error) ==> (error matches ErrorView::UnsupportedCharacter(c)
            && code(c) is None),
    decreases text.len(),
{
    if text.len() > 0 {
        lemma_encode_error(text.drop_last());
    }
}

/// The characters that the chunks stand for, one for each chunk.
pub open spec fn decoded_chunks(chunks: Seq<Seq<MorseBit>>) -> Seq<char> {
    Seq::new(chunks.len(), |i: int| lookup(chunks[i]).unwrap())
}

/// A stream is decoded where each of its chunks stands for a character, and
/// the text holds these characters in the order of the chunks.
pub proof fn lemma_decode_accepts(stream: Seq<MorseBit>)
    requires
        forall|i: int| 0 <= i < chunks(stream).len() ==> lookup(#[trigger] chunks(stream)[i]) is Some,
    ensures
        decode_spec(stream) == Ok::<Seq<char>, ErrorView>(decoded_chunks(chunks(stream))),
    decreases stream.len(),
{
    if stream.len() == 0 {
        assert(decoded_chunks(chunks(stream)) =~= Seq::<char>::empty());
    } else {
        lemma_next_chunk(stream);
        let (chunk, tail) = next_chunk(stream);
        assert(chunks(stream)[0] == chunk);
        assert forall|i: int| 0 <= i < chunks(tail).len() implies lookup(
            #[trigger] chunks(tail)[i],
        ) is Some by {
            assert(chunks(tail)[i] == chunks(stream)[i + 1]);
        }
        lemma_decode_accepts(tail);
        assert(decoded_chunks(chunks(stream)) =~= seq![lookup(chunk).unwrap()] + decoded_chunks(
            chunks(tail),
        ));
    }
}

/// Decoding fails on the first chunk that stands for no character, and
/// names it.
pub proof fn lemma_decode_rejects(stream: Seq<MorseBit>, at: int)
    requires
        0 <= at < chunks(stream).len(),
        lookup(chunks(stream)[at]) is None,
        forall|i: int| 0 <= i < at ==> lookup(#[trigger] chunks(stream)[i]) is Some,
    ensures
        decode_spec(stream) == Err::<Seq<char>, ErrorView>(
            ErrorView::MalformedSequence(chunks(stream)[at]),
        ),
    decreases stream.len(),
{
    lemma_next_chunk(stream);
    let (chunk, tail) = next_chunk(stream);
    assert(chunks(stream)[0] == chunk);
    if at > 0 {
        assert(chunks(tail)[at - 1] == chunks(stream)[at]);
        assert forall|i: int| 0 <= i < at - 1 implies lookup(#[trigger] chunks(tail)[i]) is Some by {
            assert(chunks(tail)[i] == chunks(stream)[i + 1]);
        }
        lemma_decode_rejects(tail, at - 1);
    }
}

/// Where decoding fails, the chunk that it names stands for no character.
pub proof fn lemma_decode_error(stream: Seq<MorseBit>)
    ensures
        decode_spec(stream) matches Err(error) ==> (error matches ErrorView::MalformedSequence(
            chunk,
        ) && lookup(chunk) is None),
    decreases stream.len(),
{
    if stream.len() > 0 {
        lemma_next_chunk(stream);
        lemma_decode_error(next_chunk(stream).1);
    }
}

} // verus!
