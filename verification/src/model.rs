//! The mathematical model of the scanner: for a text (a sequence of
//! codepoints) and a cursor position, which span each rule of the priority
//! ladder would claim, which rule wins, and the resulting token sequence.

use vstd::prelude::*;
use crate::classify::{is_letter_char, is_number_char, is_whitespace_char, is_newline_char,
    is_other_char, is_nonnl_ws_char};

verus! {

/// End of the run of Letters starting at `j`.
pub open spec fn letter_run_end(s: Seq<char>, j: int) -> int
    decreases s.len() - j,
{
    if 0 <= j < s.len() && is_letter_char(s[j]) {
        letter_run_end(s, j + 1)
    } else {
        j
    }
}

/// End of the run of Numbers starting at `j`.
pub open spec fn number_run_end(s: Seq<char>, j: int) -> int
    decreases s.len() - j,
{
    if 0 <= j < s.len() && is_number_char(s[j]) {
        number_run_end(s, j + 1)
    } else {
        j
    }
}

/// End of the run of "other" characters (not whitespace, not Letter, not
/// Number) starting at `j`.
pub open spec fn other_run_end(s: Seq<char>, j: int) -> int
    decreases s.len() - j,
{
    if 0 <= j < s.len() && is_other_char(s[j]) {
        other_run_end(s, j + 1)
    } else {
        j
    }
}

/// End of the run of newline characters starting at `j`.
pub open spec fn newline_run_end(s: Seq<char>, j: int) -> int
    decreases s.len() - j,
{
    if 0 <= j < s.len() && is_newline_char(s[j]) {
        newline_run_end(s, j + 1)
    } else {
        j
    }
}

/// End of the run of non-newline whitespace starting at `j`.
pub open spec fn nonnl_ws_run_end(s: Seq<char>, j: int) -> int
    decreases s.len() - j,
{
    if 0 <= j < s.len() && is_nonnl_ws_char(s[j]) {
        nonnl_ws_run_end(s, j + 1)
    } else {
        j
    }
}

/// End of the run of whitespace (of any kind) starting at `j`.
pub open spec fn ws_run_end(s: Seq<char>, j: int) -> int
    decreases s.len() - j,
{
    if 0 <= j < s.len() && is_whitespace_char(s[j]) {
        ws_run_end(s, j + 1)
    } else {
        j
    }
}

/// A contraction suffix of one character after the apostrophe:
/// s, d, m or t, compared case-insensitively (ASCII fold only).
pub open spec fn is_one_char_suffix(c: char) -> bool {
    ||| c == 's' || c == 'S'
    ||| c == 'd' || c == 'D'
    ||| c == 'm' || c == 'M'
    ||| c == 't' || c == 'T'
}

/// A contraction suffix of two characters after the apostrophe:
/// ll, ve or re, compared case-insensitively (ASCII fold only).
pub open spec fn is_two_char_suffix(a: char, b: char) -> bool {
    ||| (a == 'l' || a == 'L') && (b == 'l' || b == 'L')
    ||| (a == 'v' || a == 'V') && (b == 'e' || b == 'E')
    ||| (a == 'r' || a == 'R') && (b == 'e' || b == 'E')
}

/// Rule 1, apostrophe contraction: an apostrophe followed by a recognized
/// suffix; a two-character suffix is preferred over a one-character one.
pub open spec fn rule1_end(s: Seq<char>, i: int) -> Option<int> {
    if 0 <= i < s.len() && s[i] == '\'' {
        if i + 2 < s.len() && is_two_char_suffix(s[i + 1], s[i + 2]) {
            Some(i + 3)
        } else if i + 1 < s.len() && is_one_char_suffix(s[i + 1]) {
            Some(i + 2)
        } else {
            None
        }
    } else {
        None
    }
}

/// The position after rule 2's optional lead character: one character that
/// is not a Letter, not a Number and not a newline, if present.
pub open spec fn rule2_lead(s: Seq<char>, i: int) -> int {
    if 0 <= i < s.len() && !is_letter_char(s[i]) && !is_number_char(s[i]) && !is_newline_char(
        s[i],
    ) {
        i + 1
    } else {
        i
    }
}

/// Rule 2, optional lead character plus Letters: the optional lead is
/// committed only if at least one Letter follows it.
pub open spec fn rule2_end(s: Seq<char>, i: int) -> Option<int> {
    let e = letter_run_end(s, rule2_lead(s, i));
    if e > rule2_lead(s, i) {
        Some(e)
    } else {
        None
    }
}

/// Rule 3, digit run: one to three consecutive Numbers; a fourth Number is
/// never taken.
pub open spec fn rule3_end(s: Seq<char>, i: int) -> Option<int> {
    let e = number_run_end(s, i);
    let capped = if e > i + 3 {
        i + 3
    } else {
        e
    };
    if capped > i {
        Some(capped)
    } else {
        None
    }
}

/// The position after rule 4's optional lead: one literal space, if present.
pub open spec fn rule4_lead(s: Seq<char>, i: int) -> int {
    if 0 <= i < s.len() && s[i] == ' ' {
        i + 1
    } else {
        i
    }
}

/// Rule 4, optional single space plus a run of "other" characters plus any
/// trailing newlines: the optional space is committed only if at least one
/// "other" character follows it.
pub open spec fn rule4_end(s: Seq<char>, i: int) -> Option<int> {
    let e = other_run_end(s, rule4_lead(s, i));
    if e > rule4_lead(s, i) {
        Some(newline_run_end(s, e))
    } else {
        None
    }
}

/// Rule 5, non-newline whitespace run plus a mandatory newline run: the
/// whitespace is committed only if at least one newline follows it.
pub open spec fn rule5_end(s: Seq<char>, i: int) -> Option<int> {
    let p = nonnl_ws_run_end(s, i);
    let e = newline_run_end(s, p);
    if e > p {
        Some(e)
    } else {
        None
    }
}

/// Rule 6's bounded backward search: the largest `k` in `(i, bound]` such
/// that the character at `k` is absent (end of text) or whitespace.
pub open spec fn rule6_scan(s: Seq<char>, i: int, k: int) -> Option<int>
    decreases k - i,
{
    if k <= i {
        None
    } else if k == s.len() || is_whitespace_char(s[k]) {
        Some(k)
    } else {
        rule6_scan(s, i, k - 1)
    }
}

/// Rule 6, maximal non-newline whitespace not immediately followed by a
/// non-whitespace character: the longest prefix of the non-newline
/// whitespace run whose boundary character is whitespace or end of text.
pub open spec fn rule6_end(s: Seq<char>, i: int) -> Option<int> {
    if 0 <= i < s.len() && is_nonnl_ws_char(s[i]) {
        rule6_scan(s, i, nonnl_ws_run_end(s, i))
    } else {
        None
    }
}

/// Rule 7, any whitespace run: one or more whitespace characters of any
/// kind, newlines included.
pub open spec fn rule7_end(s: Seq<char>, i: int) -> Option<int> {
    let e = ws_run_end(s, i);
    if e > i {
        Some(e)
    } else {
        None
    }
}

/// The first rule of the priority ladder that matches at `i`, if any.
pub open spec fn first_rule_end(s: Seq<char>, i: int) -> Option<int> {
    if rule1_end(s, i) is Some {
        rule1_end(s, i)
    } else if rule2_end(s, i) is Some {
        rule2_end(s, i)
    } else if rule3_end(s, i) is Some {
        rule3_end(s, i)
    } else if rule4_end(s, i) is Some {
        rule4_end(s, i)
    } else if rule5_end(s, i) is Some {
        rule5_end(s, i)
    } else if rule6_end(s, i) is Some {
        rule6_end(s, i)
    } else {
        rule7_end(s, i)
    }
}

/// The end of the token that starts at `i`: the first matching rule's end,
/// or one codepoint past `i` when every rule declines (the fallback).
pub open spec fn token_end(s: Seq<char>, i: int) -> int {
    match first_rule_end(s, i) {
        Some(e) => e,
        None => i + 1,
    }
}

/// The ordered sequence of token spans from position `i` to the end of the
/// text. Each span is a (start, end) pair of codepoint offsets.
pub open spec fn tokens_from(s: Seq<char>, i: int) -> Seq<(int, int)>
    decreases s.len() - i,
{
    if 0 <= i < s.len() && i < token_end(s, i) <= s.len() {
        seq![(i, token_end(s, i))] + tokens_from(s, token_end(s, i))
    } else {
        Seq::empty()
    }
}

/// The ordered sequence of token texts from position `i` to the end.
pub open spec fn texts_from(s: Seq<char>, i: int) -> Seq<Seq<char>> {
    tokens_from(s, i).map_values(|t: (int, int)| s.subrange(t.0, t.1))
}

/// The ordered sequence of token texts for the whole input.
pub open spec fn token_texts(s: Seq<char>) -> Seq<Seq<char>> {
    texts_from(s, 0)
}

/// Lifts an executable optional offset to the model's optional position.
pub open spec fn as_int_opt(r: Option<usize>) -> Option<int> {
    match r {
        Some(e) => Some(e as int),
        None => None,
    }
}

pub proof fn lemma_letter_run_end_bounds(s: Seq<char>, j: int)
    requires
        0 <= j <= s.len(),
    ensures
        j <= letter_run_end(s, j) <= s.len(),
    decreases s.len() - j,
{
    if 0 <= j < s.len() && is_letter_char(s[j]) {
        lemma_letter_run_end_bounds(s, j + 1);
    }
}

pub proof fn lemma_number_run_end_bounds(s: Seq<char>, j: int)
    requires
        0 <= j <= s.len(),
    ensures
        j <= number_run_end(s, j) <= s.len(),
    decreases s.len() - j,
{
    if 0 <= j < s.len() && is_number_char(s[j]) {
        lemma_number_run_end_bounds(s, j + 1);
    }
}

pub proof fn lemma_other_run_end_bounds(s: Seq<char>, j: int)
    requires
        0 <= j <= s.len(),
    ensures
        j <= other_run_end(s, j) <= s.len(),
    decreases s.len() - j,
{
    if 0 <= j < s.len() && is_other_char(s[j]) {
        lemma_other_run_end_bounds(s, j + 1);
    }
}

pub proof fn lemma_newline_run_end_bounds(s: Seq<char>, j: int)
    requires
        0 <= j <= s.len(),
    ensures
        j <= newline_run_end(s, j) <= s.len(),
    decreases s.len() - j,
{
    if 0 <= j < s.len() && is_newline_char(s[j]) {
        lemma_newline_run_end_bounds(s, j + 1);
    }
}

pub proof fn lemma_nonnl_ws_run_end_bounds(s: Seq<char>, j: int)
    requires
        0 <= j <= s.len(),
    ensures
        j <= nonnl_ws_run_end(s, j) <= s.len(),
    decreases s.len() - j,
{
    if 0 <= j < s.len() && is_nonnl_ws_char(s[j]) {
        lemma_nonnl_ws_run_end_bounds(s, j + 1);
    }
}

pub proof fn lemma_ws_run_end_bounds(s: Seq<char>, j: int)
    requires
        0 <= j <= s.len(),
    ensures
        j <= ws_run_end(s, j) <= s.len(),
    decreases s.len() - j,
{
    if 0 <= j < s.len() && is_whitespace_char(s[j]) {
        lemma_ws_run_end_bounds(s, j + 1);
    }
}

pub proof fn lemma_rule6_scan_bounds(s: Seq<char>, i: int, k: int)
    requires
        k <= s.len(),
    ensures
        rule6_scan(s, i, k) matches Some(e) ==> i < e <= k,
    decreases k - i,
{
    if k <= i {
    } else if k == s.len() || is_whitespace_char(s[k]) {
    } else {
        lemma_rule6_scan_bounds(s, i, k - 1);
    }
}

/// Every rule that matches at a valid cursor position claims a non-empty
/// span that stays inside the text, and so does the fallback: the end of
/// the token starting at `i` lies strictly past `i` and at most at the
/// text's end.
pub proof fn lemma_token_end_bounds(s: Seq<char>, i: int)
    requires
        0 <= i < s.len(),
    ensures
        i < token_end(s, i) <= s.len(),
{
    lemma_letter_run_end_bounds(s, rule2_lead(s, i));
    lemma_number_run_end_bounds(s, i);
    lemma_other_run_end_bounds(s, rule4_lead(s, i));
    if rule4_end(s, i) is Some {
        lemma_newline_run_end_bounds(s, other_run_end(s, rule4_lead(s, i)));
    }
    lemma_nonnl_ws_run_end_bounds(s, i);
    lemma_newline_run_end_bounds(s, nonnl_ws_run_end(s, i));
    lemma_rule6_scan_bounds(s, i, nonnl_ws_run_end(s, i));
    lemma_ws_run_end_bounds(s, i);
}

/// At a valid cursor position the token sequence is the token starting
/// there followed by the token sequence from that token's end, and the
/// token text sequence decomposes the same way.
pub proof fn lemma_texts_from_step(s: Seq<char>, i: int)
    requires
        0 <= i < s.len(),
    ensures
        tokens_from(s, i) == seq![(i, token_end(s, i))] + tokens_from(s, token_end(s, i)),
        texts_from(s, i) == seq![s.subrange(i, token_end(s, i))] + texts_from(s, token_end(s, i)),
{
    lemma_token_end_bounds(s, i);
    let e = token_end(s, i);
    assert(tokens_from(s, i) == seq![(i, e)] + tokens_from(s, e));
    assert(texts_from(s, i) =~= seq![s.subrange(i, e)] + texts_from(s, e));
}

/// Past the end of the text the token sequence is empty.
pub proof fn lemma_texts_from_end(s: Seq<char>, i: int)
    requires
        i >= s.len() || i < 0,
    ensures
        tokens_from(s, i) == Seq::<(int, int)>::empty(),
        texts_from(s, i) == Seq::<Seq<char>>::empty(),
{
    assert(texts_from(s, i) =~= Seq::<Seq<char>>::empty());
}

} // verus!

