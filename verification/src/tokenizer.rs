//! Cutting a stream of symbols into chunks, one per character.

use vstd::prelude::*;
use crate::symbol::MorseBit;
use crate::symbol::MorseBit::{LetterSpace, WordSpace};

verus! {

/// How many letter gaps stand at the head of `stream`.
pub open spec fn leading_gaps(stream: Seq<MorseBit>) -> nat
    decreases stream.len(),
{
    if stream.len() > 0 && stream[0] == LetterSpace {
        1 + leading_gaps(stream.skip(1))
    } else {
        0
    }
}

/// The length of the longest prefix of `stream` that holds no letter gap.
pub open spec fn run_len(stream: Seq<MorseBit>) -> nat
    decreases stream.len(),
{
    if stream.len() > 0 && stream[0] != LetterSpace {
        1 + run_len(stream.skip(1))
    } else {
        0
    }
}

/// The next chunk of `stream` and what is left of the stream behind it.
///
/// A word gap at the head is a chunk by itself. Otherwise the letter gaps at
/// the head are dropped, the chunk runs up to the next letter gap, and that
/// one letter gap is dropped with it.
pub open spec fn next_chunk(stream: Seq<MorseBit>) -> (Seq<MorseBit>, Seq<MorseBit>) {
    if stream.len() > 0 && stream[0] == WordSpace {
        (stream.take(1), stream.skip(1))
    } else {
        let body = stream.skip(leading_gaps(stream) as int);
        let n = run_len(body);
        (
            body.take(n as int),
            if n + 1 >= body.len() {
                Seq::empty()
            } else {
                body.skip((n + 1) as int)
            },
        )
    }
}

/// The chunks of `stream`, in the order in which they are cut from it.
pub open spec fn chunks(stream: Seq<MorseBit>) -> Seq<Seq<MorseBit>>
    decreases stream.len(),
    via chunks_decreases
{
    if stream.len() == 0 {
        Seq::empty()
    } else {
        seq![next_chunk(stream).0] + chunks(next_chunk(stream).1)
    }
}

#[via_fn]
proof fn chunks_decreases(stream: Seq<MorseBit>) {
    lemma_next_chunk(stream);
}

/// The letter gap, once or not at all: what may stand before a chunk.
pub open spec fn gap_before(pending: bool) -> Seq<MorseBit> {
    if pending {
        seq![LetterSpace]
    } else {
        Seq::empty()
    }
}

/// Splits `stream` into its next chunk and the rest of the stream.
pub fn get_next_morse(stream: &[MorseBit]) -> (parts: (&[MorseBit], &[MorseBit]))
    ensures
        (parts.0@, parts.1@) == next_chunk(stream@),
        stream@.len() > 0 ==> parts.1@.len() < stream@.len(),
{
    let len = stream.len();
    if len > 0 && stream[0] == WordSpace {
        return stream.split_at(1);
    }
    let mut start: usize = 0;
    assert(stream@.skip(0) =~= stream@);
    while start < len && stream[start] == LetterSpace
        invariant
            start <= len,
            len == stream@.len(),
            leading_gaps(stream@) == start + leading_gaps(stream@.skip(start as int)),
        decreases len - start,
    {
        assert(stream@.skip(start as int).skip(1) =~= stream@.skip(start + 1));
        start += 1;
    }
    let mut end: usize = start;
    while end < len && stream[end] != LetterSpace
        invariant
            start <= end <= len,
            len == stream@.len(),
            run_len(stream@.skip(start as int)) == (end - start) + run_len(
                stream@.skip(end as int),
            ),
        decreases len - end,
    {
        assert(stream@.skip(end as int).skip(1) =~= stream@.skip(end + 1));
        end += 1;
    }
    let chunk = &stream[start..end];
    let tail = if len - end <= 1 {
        &stream[len..len]
    } else {
        &stream[end + 1..len]
    };
    proof {
        lemma_next_chunk(stream@);
        let body = stream@.skip(start as int);
        assert(chunk@ =~= body.take(end - start));
        if len - end > 1 {
            assert(tail@ =~= body.skip(end - start + 1));
        } else {
            assert(tail@ =~= Seq::<MorseBit>::empty());
        }
    }
    (chunk, tail)
}

/// `leading_gaps` counts exactly the letter gaps before the first symbol of
/// another kind.
pub proof fn lemma_leading_gaps(stream: Seq<MorseBit>)
    ensures
        leading_gaps(stream) <= stream.len(),
        forall|i: int| 0 <= i < leading_gaps(stream) ==> stream[i] == LetterSpace,
        leading_gaps(stream) < stream.len() ==> stream[leading_gaps(stream) as int] != LetterSpace,
    decreases stream.len(),
{
    if stream.len() > 0 && stream[0] == LetterSpace {
        let rest = stream.skip(1);
        lemma_leading_gaps(rest);
        assert forall|i: int| 0 <= i < leading_gaps(stream) implies stream[i] == LetterSpace by {
            if i > 0 {
                assert(stream[i] == rest[i - 1]);
            }
        }
        if leading_gaps(stream) < stream.len() {
            assert(stream[leading_gaps(stream) as int] == rest[leading_gaps(rest) as int]);
        }
    }
}

/// `run_len` counts exactly the symbols before the first letter gap.
pub proof fn lemma_run_len(stream: Seq<MorseBit>)
    ensures
        run_len(stream) <= stream.len(),
        forall|i: int| 0 <= i < run_len(stream) ==> stream[i] != LetterSpace,
        run_len(stream) < stream.len() ==> stream[run_len(stream) as int] == LetterSpace,
    decreases stream.len(),
{
    if stream.len() > 0 && stream[0] != LetterSpace {
        let rest = stream.skip(1);
        lemma_run_len(rest);
        assert forall|i: int| 0 <= i < run_len(stream) implies stream[i] != LetterSpace by {
            if i > 0 {
                assert(stream[i] == rest[i - 1]);
            }
        }
        if run_len(stream) < stream.len() {
            assert(stream[run_len(stream) as int] == rest[run_len(rest) as int]);
        }
    }
}

/// A stream that starts with `n` letter gaps and then goes on otherwise, or
/// ends, has `n` leading gaps.
pub proof fn lemma_leading_gaps_is(stream: Seq<MorseBit>, n: int)
    requires
        0 <= n <= stream.len(),
        forall|i: int| 0 <= i < n ==> stream[i] == LetterSpace,
        n < stream.len() ==> stream[n] != LetterSpace,
    ensures
        leading_gaps(stream) == n,
    decreases n,
{
    if n > 0 {
        let rest = stream.skip(1);
        assert forall|i: int| 0 <= i < n - 1 implies rest[i] == LetterSpace by {
            assert(rest[i] == stream[i + 1]);
        }
        lemma_leading_gaps_is(rest, n - 1);
    }
}

/// A stream whose first `n` symbols are no letter gaps, and which then has a
/// letter gap, or ends, has a run of `n`.
pub proof fn lemma_run_len_is(stream: Seq<MorseBit>, n: int)
    requires
        0 <= n <= stream.len(),
        forall|i: int| 0 <= i < n ==> stream[i] != LetterSpace,
        n < stream.len() ==> stream[n] == LetterSpace,
    ensures
        run_len(stream) == n,
    decreases n,
{
    if n > 0 {
        let rest = stream.skip(1);
        assert forall|i: int| 0 <= i < n - 1 implies rest[i] != LetterSpace by {
            assert(rest[i] == stream[i + 1]);
        }
        lemma_run_len_is(rest, n - 1);
    }
}

/// A chunk without letter gaps that is followed by a letter gap is cut out
/// whole, with or without a letter gap before it, and the tail is what
/// follows that gap. A word gap at the very head is left out: it would be a
/// chunk by itself.
pub proof fn lemma_next_chunk_of_framed(
    pending: bool,
    chunk: Seq<MorseBit>,
    tail: Seq<MorseBit>,
)
    requires
        chunk.len() > 0,
        forall|i: int| 0 <= i < chunk.len() ==> chunk[i] != LetterSpace,
        pending || chunk[0] != WordSpace,
    ensures
        next_chunk(gap_before(pending) + chunk + seq![LetterSpace] + tail) == (chunk, tail),
{
    let stream = gap_before(pending) + chunk + seq![LetterSpace] + tail;
    let k: int = if pending { 1 } else { 0 };
    assert(stream[k] == chunk[0]);
    lemma_leading_gaps_is(stream, k);
    let body = stream.skip(k);
    assert(body =~= chunk + seq![LetterSpace] + tail);
    let n = chunk.len() as int;
    assert forall|i: int| 0 <= i < n implies body[i] != LetterSpace by {
        assert(body[i] == chunk[i]);
    }
    assert(body[n] == LetterSpace);
    lemma_run_len_is(body, n);
    assert(body.take(n) =~= chunk);
    if n + 1 >= body.len() {
        assert(tail =~= Seq::<MorseBit>::empty());
    } else {
        assert(body.skip(n + 1) =~= tail);
    }
}

/// A chunk without letter gaps that ends the stream is cut out whole, and
/// nothing is left. A word gap at the head of a longer chunk is left out: it
/// would be a chunk by itself.
pub proof fn lemma_next_chunk_of_last(chunk: Seq<MorseBit>)
    requires
        chunk.len() > 0,
        forall|i: int| 0 <= i < chunk.len() ==> chunk[i] != LetterSpace,
        chunk.len() == 1 || chunk[0] != WordSpace,
    ensures
        next_chunk(chunk) == (chunk, Seq::<MorseBit>::empty()),
{
    if chunk[0] == WordSpace {
        assert(chunk.take(1) =~= chunk);
        assert(chunk.skip(1) =~= Seq::<MorseBit>::empty());
    } else {
        lemma_leading_gaps_is(chunk, 0);
        assert(chunk.skip(0) =~= chunk);
        lemma_run_len_is(chunk, chunk.len() as int);
        assert(chunk.take(chunk.len() as int) =~= chunk);
    }
}

/// The chunk holds no letter gap, chunk and tail are pieces of the stream,
/// and the tail of a stream that is not empty is shorter than the stream.
pub proof fn lemma_next_chunk(stream: Seq<MorseBit>)
    ensures
        forall|i: int|
            0 <= i < next_chunk(stream).0.len() ==> next_chunk(stream).0[i] != LetterSpace,
        next_chunk(stream).0.len() + next_chunk(stream).1.len() <= stream.len(),
        stream.len() > 0 ==> next_chunk(stream).1.len() < stream.len(),
{
    if stream.len() > 0 && stream[0] == WordSpace {
    } else {
        let body = stream.skip(leading_gaps(stream) as int);
        lemma_leading_gaps(stream);
        lemma_run_len(body);
    }
}

} // verus!
