//! The laws the token sequence obeys, proved of the model for every input:
//! the emitted spans partition the text, and the scan takes at most one
//! step per codepoint.

use vstd::prelude::*;
use crate::model::{token_end, tokens_from, texts_from, token_texts, lemma_token_end_bounds,
    lemma_texts_from_step, lemma_texts_from_end};

verus! {

/// Shape of the token spans emitted from position `i` onward: there is at
/// most one span per remaining codepoint, at least one when text remains,
/// the first starts at `i`, the last ends at the text's end, every span is
/// non-empty and inside the text, and consecutive spans are contiguous.
proof fn lemma_tokens_from_shape(s: Seq<char>, i: int)
    requires
        0 <= i <= s.len(),
    ensures
        tokens_from(s, i).len() <= s.len() - i,
        i == s.len() ==> tokens_from(s, i).len() == 0,
        i < s.len() ==> tokens_from(s, i).len() > 0,
        i < s.len() ==> tokens_from(s, i)[0].0 == i,
        i < s.len() ==> tokens_from(s, i).last().1 == s.len(),
        forall|k: int|
            0 <= k < tokens_from(s, i).len() ==> (#[trigger] tokens_from(s, i)[k]).0 < tokens_from(
                s,
                i,
            )[k].1 <= s.len(),
        forall|k: int|
            0 <= k < tokens_from(s, i).len() - 1 ==> (#[trigger] tokens_from(s, i)[k]).1
                == tokens_from(s, i)[k + 1].0,
    decreases s.len() - i,
{
    if i < s.len() {
        lemma_token_end_bounds(s, i);
        let e = token_end(s, i);
        lemma_tokens_from_shape(s, e);
        let toks = tokens_from(s, i);
        let rest = tokens_from(s, e);
        assert(toks == seq![(i, e)] + rest);
        assert forall|k: int| 0 <= k < toks.len() implies (#[trigger] toks[k]).0 < toks[k].1
            <= s.len() by {
            if k > 0 {
                assert(toks[k] == rest[k - 1]);
            }
        }
        assert forall|k: int| 0 <= k < toks.len() - 1 implies (#[trigger] toks[k]).1 == toks[k
            + 1].0 by {
            if k == 0 {
                assert(toks[1] == rest[0]);
            } else {
                assert(toks[k] == rest[k - 1]);
                assert(toks[k + 1] == rest[k]);
            }
        }
        if rest.len() > 0 {
            assert(toks.last() == rest.last());
        }
    }
}

/// The token texts from position `i` onward concatenate to exactly the
/// remainder of the text from `i`.
proof fn lemma_texts_from_concat(s: Seq<char>, i: int)
    requires
        0 <= i <= s.len(),
    ensures
        texts_from(s, i).flatten() == s.subrange(i, s.len() as int),
    decreases s.len() - i,
{
    if i == s.len() {
        lemma_texts_from_end(s, i);
        assert(texts_from(s, i).flatten() =~= s.subrange(i, s.len() as int));
    } else {
        lemma_texts_from_step(s, i);
        let e = token_end(s, i);
        lemma_token_end_bounds(s, i);
        lemma_texts_from_concat(s, e);
        let texts = texts_from(s, i);
        assert(texts.first() == s.subrange(i, e));
        assert(texts.drop_first() =~= texts_from(s, e));
        assert(texts.flatten() == s.subrange(i, e) + texts_from(s, e).flatten());
        assert(texts.flatten() =~= s.subrange(i, s.len() as int));
    }
}

/// Partition: for every input, the emitted token texts concatenate, in
/// order, to exactly the input; every span is non-empty and lies inside the
/// input; consecutive spans are contiguous, with no gap and no overlap; the
/// first span starts at the input's start and the last ends at its end.
pub proof fn lemma_partition(s: Seq<char>)
    ensures
        token_texts(s).flatten() == s,
        forall|k: int|
            0 <= k < tokens_from(s, 0).len() ==> (#[trigger] tokens_from(s, 0)[k]).0 < tokens_from(
                s,
                0,
            )[k].1 <= s.len(),
        forall|k: int|
            0 <= k < tokens_from(s, 0).len() - 1 ==> (#[trigger] tokens_from(s, 0)[k]).1
                == tokens_from(s, 0)[k + 1].0,
        s.len() > 0 ==> tokens_from(s, 0).len() > 0 && tokens_from(s, 0)[0].0 == 0 && tokens_from(
            s,
            0,
        ).last().1 == s.len(),
        s.len() == 0 ==> tokens_from(s, 0).len() == 0,
{
    lemma_tokens_from_shape(s, 0);
    lemma_texts_from_concat(s, 0);
    assert(s.subrange(0, s.len() as int) =~= s);
}

/// Termination and progress: scanning a finite input of `n` codepoints
/// emits at most `n` tokens, since even the fallback consumes one
/// codepoint per step.
pub proof fn lemma_progress(s: Seq<char>)
    ensures
        tokens_from(s, 0).len() <= s.len(),
{
    lemma_tokens_from_shape(s, 0);
}

} // verus!
