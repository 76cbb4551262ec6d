//! Rendering symbols as dots and dashes, and reading such a rendering.

use vstd::prelude::*;
use crate::error::{outcome, ErrorView, MorseError};
use crate::symbol::MorseBit;
use crate::symbol::MorseBit::{Dah, Dit, LetterSpace, WordSpace};

verus! {

/// What one symbol adds to the rendering, given the symbol before it: a dot
/// or a dash for a pulse; one space for a letter gap and two for a word gap,
/// unless the symbol before was a gap too, in which case nothing.
pub open spec fn pretty_piece(previous: MorseBit, token: MorseBit) -> Seq<char> {
    match token {
        Dit => seq!['.'],
        Dah => seq!['-'],
        LetterSpace => if previous.is_gap() {
            Seq::empty()
        } else {
            seq![' ']
        },
        WordSpace => if previous.is_gap() {
            Seq::empty()
        } else {
            seq![' ', ' ']
        },
    }
}

/// The symbol that counts as standing before position `i` of `tokens`.
/// Before the first symbol that is a word gap, so that no rendering starts
/// with a space.
pub open spec fn previous_token(tokens: Seq<MorseBit>, i: int) -> MorseBit {
    if i <= 0 {
        WordSpace
    } else {
        tokens[i - 1]
    }
}

/// The rendering of `tokens`: the pieces of its symbols, one after the other.
pub open spec fn pretty_spec(tokens: Seq<MorseBit>) -> Seq<char>
    decreases tokens.len(),
{
    if tokens.len() == 0 {
        Seq::empty()
    } else {
        pretty_spec(tokens.drop_last()) + pretty_piece(
            previous_token(tokens, tokens.len() - 1),
            tokens.last(),
        )
    }
}

/// The symbol that a character of a rendering stands for.
pub open spec fn pretty_symbol(c: char) -> Option<MorseBit> {
    match c {
        '.' => Some(Dit),
        '-' => Some(Dah),
        ' ' => Some(LetterSpace),
        _ => None,
    }
}

/// The symbols of a rendering, one for each character. The first character
/// that stands for no symbol makes the whole rendering fail.
pub open spec fn from_pretty_spec(text: Seq<char>) -> Result<Seq<MorseBit>, ErrorView>
    decreases text.len(),
{
    if text.len() == 0 {
        Ok(Seq::empty())
    } else {
        match from_pretty_spec(text.drop_last()) {
            Err(error) => Err(error),
            Ok(symbols) => match pretty_symbol(text.last()) {
                None => Err(ErrorView::InvalidPrettyChar(text.last())),
                Some(symbol) => Ok(symbols.push(symbol)),
            },
        }
    }
}

/// Renders symbols as dots, dashes and spaces.
pub fn to_pretty(morse_tokens: &[MorseBit]) -> (output: String)
    ensures
        output@ == pretty_spec(morse_tokens@),
{
    let mut output = String::new();
    let mut last_tok = WordSpace;
    for i in 0..morse_tokens.len()
        invariant
            output@ == pretty_spec(morse_tokens@.take(i as int)),
            last_tok == previous_token(morse_tokens@, i as int),
    {
        let tok = morse_tokens[i];
        let ghost before = output@;
        proof {
            let upto = morse_tokens@.take(i + 1);
            assert(upto.drop_last() =~= morse_tokens@.take(i as int));
            assert(previous_token(upto, i as int) == last_tok);
        }
        match tok {
            Dit => output.push('.'),
            Dah => output.push('-'),
            LetterSpace => {
                if !last_tok.is_gap() {
                    output.push(' ');
                }
            },
            WordSpace => {
                if !last_tok.is_gap() {
                    output.push(' ');
                    output.push(' ');
                }
            },
        }
        proof {
            assert(output@ =~= before + pretty_piece(last_tok, tok));
        }
        last_tok = tok;
    }
    proof {
        assert(morse_tokens@.take(morse_tokens@.len() as int) =~= morse_tokens@);
    }
    output
}

/// Reads a rendering in dots, dashes and spaces. Each space is one letter
/// gap: two spaces are two letter gaps, not a word gap.
pub fn from_pretty(text: &str) -> (result: Result<Vec<MorseBit>, MorseError>)
    ensures
        outcome(result) == from_pretty_spec(text@),
{
    let mut tokens: Vec<MorseBit> = Vec::new();
    let chars = text.chars();
    for ch in it: chars
        invariant
            it.seq() == text@,
            from_pretty_spec(text@.take(it.index())) == Ok::<Seq<MorseBit>, ErrorView>(tokens@),
    {
        proof {
            assert(text@.take(it.index() + 1).drop_last() =~= text@.take(it.index()));
            assert(text@.take(it.index() + 1).last() == ch);
        }
        match ch {
            '-' => tokens.push(Dah),
            '.' => tokens.push(Dit),
            ' ' => tokens.push(LetterSpace),
            _ => {
                proof {
                    lemma_from_pretty_prefix_error(text@, it.index() + 1);
                }
                return Err(MorseError::InvalidPrettyChar(ch));
            },
        }
    }
    proof {
        assert(text@.take(text@.len() as int) =~= text@);
    }
    Ok(tokens)
}

/// A character without a symbol in a prefix of the rendering fails the whole
/// rendering with the same error.
pub proof fn lemma_from_pretty_prefix_error(text: Seq<char>, n: int)
    requires
        0 <= n <= text.len(),
        from_pretty_spec(text.take(n)) is Err,
    ensures
        from_pretty_spec(text) == from_pretty_spec(text.take(n)),
    decreases text.len() - n,
{
    if n < text.len() {
        assert(text.take(n + 1).drop_last() =~= text.take(n));
        lemma_from_pretty_prefix_error(text, n + 1);
    } else {
        assert(text.take(n) =~= text);
    }
}

/// A rendering is read where each of its characters stands for a symbol, and
/// the result holds these symbols in the order of the characters.
pub proof fn lemma_from_pretty_accepts(text: Seq<char>)
    requires
        forall|i: int| 0 <= i < text.len() ==> pretty_symbol(text[i]) is Some,
    ensures
        from_pretty_spec(text) == Ok::<Seq<MorseBit>, ErrorView>(
            Seq::new(text.len(), |i: int| pretty_symbol(text[i]).unwrap()),
        ),
    decreases text.len(),
{
    let symbols = Seq::new(text.len(), |i: int| pretty_symbol(text[i]).unwrap());
    if text.len() == 0 {
        assert(symbols =~= Seq::<MorseBit>::empty());
    } else {
        let front = text.drop_last();
        assert forall|i: int| 0 <= i < front.len() implies pretty_symbol(front[i]) is Some by {
            assert(front[i] == text[i]);
        }
        lemma_from_pretty_accepts(front);
        let front_symbols = Seq::new(front.len(), |i: int| pretty_symbol(front[i]).unwrap());
        assert(symbols =~= front_symbols.push(pretty_symbol(text.last()).unwrap()));
    }
}

/// Reading fails on the first character that stands for no symbol, and
/// names it.
pub proof fn lemma_from_pretty_rejects(text: Seq<char>, at: int)
    requires
        0 <= at < text.len(),
        pretty_symbol(text[at]) is None,
        forall|i: int| 0 <= i < at ==> pretty_symbol(text[i]) is Some,
    ensures
        from_pretty_spec(text) == Err::<Seq<MorseBit>, ErrorView>(
            ErrorView::InvalidPrettyChar(text[at]),
        ),
{
    let upto = text.take(at + 1);
    assert(upto.drop_last() =~= text.take(at));
    lemma_from_pretty_accepts(text.take(at));
    lemma_from_pretty_prefix_error(text, at + 1);
}

} // verus!
