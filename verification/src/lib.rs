//! Pre-tokenization: splitting text into the ordered token spans produced by
//! a fixed priority ladder of greedy, all-or-nothing scanning rules, using a
//! single forward pass instead of a backtracking regular-expression engine.

pub mod classify;
pub mod laws;
pub mod model;

use vstd::prelude::*;
use vstd::string::StrSliceExecFns;
use crate::classify::{is_letter, is_number, is_newline, is_other, is_nonnl_ws};
use crate::model::{rule1_end, rule2_end, rule2_lead, rule3_end, rule4_end, rule5_end,
    rule6_end, rule6_scan, rule7_end, letter_run_end, number_run_end, other_run_end,
    newline_run_end, nonnl_ws_run_end, ws_run_end, as_int_opt, token_end, texts_from, token_texts};
use crate::model::{lemma_number_run_end_bounds, lemma_rule6_scan_bounds, lemma_texts_from_step,
    lemma_texts_from_end};

verus! {

/// A forward-only scanner over a borrowed text. It holds the text and a
/// cursor (a codepoint offset); each advance applies the priority ladder of
/// rules at the cursor and yields the claimed span.
pub struct PatternIterator<'a> {
    text: &'a str,
    len_chars: usize,
    current_pos: usize,
}

impl<'a> PatternIterator<'a> {
    /// The scanner's input as a sequence of codepoints.
    pub closed spec fn input(self) -> Seq<char> {
        self.text@
    }

    /// The cursor: the codepoint offset at which the next token starts.
    pub closed spec fn pos(self) -> int {
        self.current_pos as int
    }

    /// Well-formedness: the stored length is the input's length in
    /// codepoints, and the cursor never passes the end of the input.
    pub closed spec fn wf(self) -> bool {
        &&& self.len_chars == self.input().len()
        &&& self.current_pos <= self.len_chars
    }

    /// Positions the scanner at the start of the given text.
    pub fn new(text: &'a str) -> (r: Self)
        ensures
            r.wf(),
            r.input() == text@,
            r.pos() == 0,
    {
        let len_chars = text.unicode_len();
        PatternIterator { text, len_chars, current_pos: 0 }
    }

    /// The codepoint at the given offset, or nothing at or past the end.
    fn peek_char_at(&self, pos: usize) -> (r: Option<char>)
        requires
            self.wf(),
        ensures
            match r {
                Some(c) => pos < self.input().len() && c == self.input()[pos as int],
                None => pos >= self.input().len(),
            },
    {
        if pos < self.len_chars {
            Some(self.text.get_char(pos))
        } else {
            None
        }
    }

    /// How far the cursor advances for the codepoint at the given offset:
    /// one position, or zero at or past the end.
    fn char_len_at(&self, pos: usize) -> (r: usize)
        requires
            self.wf(),
        ensures
            r == if pos < self.input().len() {
                1int
            } else {
                0int
            },
    {
        if pos < self.len_chars {
            1
        } else {
            0
        }
    }

    /// Rule 1: an apostrophe followed by a contraction suffix, two
    /// characters (ll, ve, re) preferred over one (s, d, m, t), each
    /// compared case-insensitively with an ASCII-only fold.
    fn try_match_apostrophe_contractions(&self, start_pos: usize) -> (r: Option<usize>)
        requires
            self.wf(),
            start_pos <= self.input().len(),
        ensures
            as_int_opt(r) == rule1_end(self.input(), start_pos as int),
            r matches Some(e) ==> start_pos < e <= self.input().len(),
    {
        match self.peek_char_at(start_pos) {
            Some(c) => {
                if c != '\'' {
                    return None;
                }
            },
            None => {
                return None;
            },
        }
        if let Some(a) = self.peek_char_at(start_pos + 1) {
            if let Some(b) = self.peek_char_at(start_pos + 2) {
                if ((a == 'l' || a == 'L') && (b == 'l' || b == 'L')) || ((a == 'v' || a == 'V')
                    && (b == 'e' || b == 'E')) || ((a == 'r' || a == 'R') && (b == 'e' || b
                    == 'E')) {
                    return Some(start_pos + 3);
                }
            }
            if a == 's' || a == 'S' || a == 'd' || a == 'D' || a == 'm' || a == 'M' || a == 't'
                || a == 'T' {
                return Some(start_pos + 2);
            }
        }
        None
    }

    /// Rule 2: one optional character that is not a Letter, not a Number and
    /// not a newline, then one or more Letters. The optional lead is
    /// committed only when a Letter follows; otherwise the whole rule
    /// declines with no effect.
    fn try_match_optional_nonalpha_plus_letters(&self, start_pos: usize) -> (r: Option<usize>)
        requires
            self.wf(),
            start_pos <= self.input().len(),
        ensures
            as_int_opt(r) == rule2_end(self.input(), start_pos as int),
            r matches Some(e) ==> start_pos < e <= self.input().len(),
    {
        let mut pos = start_pos;

        if let Some(c) = self.peek_char_at(pos) {
            if !is_letter(c) && !is_number(c) && !is_newline(c) {
                pos = pos + 1;
            }
        }
        assert(pos == rule2_lead(self.input(), start_pos as int));

        let letter_start = pos;
        while pos < self.len_chars && is_letter(self.text.get_char(pos))
            invariant
                self.wf(),
                letter_start <= pos <= self.len_chars,
                letter_run_end(self.input(), letter_start as int) == letter_run_end(
                    self.input(),
                    pos as int,
                ),
            decreases self.len_chars - pos,
        {
            pos = pos + 1;
        }
        assert(letter_run_end(self.input(), pos as int) == pos);

        if pos > letter_start {
            Some(pos)
        } else {
            None
        }
    }

    /// Rule 3: one to three consecutive Numbers; a fourth Number present in
    /// the text is left for the next token.
    fn try_match_numbers_1_to_3(&self, start_pos: usize) -> (r: Option<usize>)
        requires
            self.wf(),
            start_pos <= self.input().len(),
        ensures
            as_int_opt(r) == rule3_end(self.input(), start_pos as int),
            r matches Some(e) ==> start_pos < e <= self.input().len(),
    {
        let mut pos = start_pos;
        let mut count: usize = 0;

        while count < 3 && pos < self.len_chars && is_number(self.text.get_char(pos))
            invariant
                self.wf(),
                start_pos + count == pos <= self.len_chars,
                count <= 3,
                number_run_end(self.input(), start_pos as int) == number_run_end(
                    self.input(),
                    pos as int,
                ),
            decreases self.len_chars - pos,
        {
            pos = pos + 1;
            count = count + 1;
        }
        proof {
            lemma_number_run_end_bounds(self.input(), pos as int);
        }

        if count > 0 {
            Some(pos)
        } else {
            None
        }
    }

    /// Rule 4: one optional literal space, then one or more "other"
    /// characters (not whitespace, not Letter, not Number), then any
    /// immediately following newlines. The optional space is committed only
    /// when an "other" character follows; otherwise the whole rule declines.
    fn try_match_space_plus_nonwhitespace_with_newlines(&self, start_pos: usize) -> (r: Option<
        usize,
    >)
        requires
            self.wf(),
            start_pos <= self.input().len(),
        ensures
            as_int_opt(r) == rule4_end(self.input(), start_pos as int),
            r matches Some(e) ==> start_pos < e <= self.input().len(),
    {
        if start_pos >= self.len_chars {
            return None;
        }
        let mut pos = start_pos;

        if let Some(c) = self.peek_char_at(pos) {
            if c == ' ' {
                pos = pos + 1;
            }
        }

        let special_start = pos;
        while pos < self.len_chars && is_other(self.text.get_char(pos))
            invariant
                self.wf(),
                special_start <= pos <= self.len_chars,
                other_run_end(self.input(), special_start as int) == other_run_end(
                    self.input(),
                    pos as int,
                ),
            decreases self.len_chars - pos,
        {
            pos = pos + 1;
        }

        if pos > special_start {
            let newline_start = pos;
            while pos < self.len_chars && is_newline(self.text.get_char(pos))
                invariant
                    self.wf(),
                    newline_start <= pos <= self.len_chars,
                    newline_run_end(self.input(), newline_start as int) == newline_run_end(
                        self.input(),
                        pos as int,
                    ),
                decreases self.len_chars - pos,
            {
                pos = pos + 1;
            }
            Some(pos)
        } else {
            None
        }
    }

    /// Rule 5: zero or more non-newline whitespace characters, then one or
    /// more newlines. Without a newline the already scanned whitespace is
    /// fully rolled back and the rule declines.
    fn try_match_whitespace_before_newlines(&self, start_pos: usize) -> (r: Option<usize>)
        requires
            self.wf(),
            start_pos <= self.input().len(),
        ensures
            as_int_opt(r) == rule5_end(self.input(), start_pos as int),
            r matches Some(e) ==> start_pos < e <= self.input().len(),
    {
        let mut pos = start_pos;

        while pos < self.len_chars && is_nonnl_ws(self.text.get_char(pos))
            invariant
                self.wf(),
                start_pos <= pos <= self.len_chars,
                nonnl_ws_run_end(self.input(), start_pos as int) == nonnl_ws_run_end(
                    self.input(),
                    pos as int,
                ),
            decreases self.len_chars - pos,
        {
            pos = pos + 1;
        }

        let newline_start = pos;
        while pos < self.len_chars && is_newline(self.text.get_char(pos))
            invariant
                self.wf(),
                newline_start <= pos <= self.len_chars,
                newline_run_end(self.input(), newline_start as int) == newline_run_end(
                    self.input(),
                    pos as int,
                ),
            decreases self.len_chars - pos,
        {
            pos = pos + 1;
        }

        if pos > newline_start {
            Some(pos)
        } else {
            None
        }
    }

    /// Rule 6: the current character must be non-newline whitespace; scan
    /// its full run, then take the longest prefix whose boundary character
    /// is whitespace or end of text, trying lengths from the whole run down
    /// to one. Declines when no prefix qualifies.
    fn try_match_whitespace_followed_by_whitespace_or_end(&self, start_pos: usize) -> (r: Option<
        usize,
    >)
        requires
            self.wf(),
            start_pos <= self.input().len(),
        ensures
            as_int_opt(r) == rule6_end(self.input(), start_pos as int),
            r matches Some(e) ==> start_pos < e <= self.input().len(),
    {
        if start_pos >= self.len_chars {
            return None;
        }
        if !is_nonnl_ws(self.text.get_char(start_pos)) {
            return None;
        }
        let mut pos = start_pos;
        while pos < self.len_chars && is_nonnl_ws(self.text.get_char(pos))
            invariant
                self.wf(),
                start_pos <= pos <= self.len_chars,
                nonnl_ws_run_end(self.input(), start_pos as int) == nonnl_ws_run_end(
                    self.input(),
                    pos as int,
                ),
            decreases self.len_chars - pos,
        {
            pos = pos + 1;
        }
        proof {
            lemma_rule6_scan_bounds(self.input(), start_pos as int, pos as int);
        }
        assert(nonnl_ws_run_end(self.input(), start_pos as int) == pos);
        assert(rule6_end(self.input(), start_pos as int) == rule6_scan(
            self.input(),
            start_pos as int,
            pos as int,
        ));

        let mut k = pos;
        while k > start_pos
            invariant
                self.wf(),
                start_pos <= k <= pos <= self.len_chars,
                rule6_end(self.input(), start_pos as int) == rule6_scan(
                    self.input(),
                    start_pos as int,
                    k as int,
                ),
            decreases k,
        {
            if k == self.len_chars {
                return Some(k);
            }
            if self.text.get_char(k).is_whitespace() {
                return Some(k);
            }
            k = k - 1;
        }
        None
    }

    /// Rule 7: one or more whitespace characters of any kind, newlines
    /// included. Declines only when the current character is not whitespace.
    fn try_match_any_whitespace(&self, start_pos: usize) -> (r: Option<usize>)
        requires
            self.wf(),
            start_pos <= self.input().len(),
        ensures
            as_int_opt(r) == rule7_end(self.input(), start_pos as int),
            r matches Some(e) ==> start_pos < e <= self.input().len(),
    {
        let mut pos = start_pos;

        while pos < self.len_chars && self.text.get_char(pos).is_whitespace()
            invariant
                self.wf(),
                start_pos <= pos <= self.len_chars,
                ws_run_end(self.input(), start_pos as int) == ws_run_end(
                    self.input(),
                    pos as int,
                ),
            decreases self.len_chars - pos,
        {
            pos = pos + 1;
        }

        if pos > start_pos {
            Some(pos)
        } else {
            None
        }
    }

    /// Advances the scanner by one token. At a cursor short of the end it
    /// yields the span that the first matching rule of the priority ladder
    /// claims there — one codepoint when every rule declines — and moves the
    /// cursor to the span's end; at the end it yields nothing and leaves the
    /// scanner unchanged.
    pub fn next(&mut self) -> (r: Option<&'a str>)
        requires
            old(self).wf(),
        ensures
            final(self).wf(),
            final(self).input() == old(self).input(),
            match r {
                Some(tok) => {
                    &&& old(self).pos() < old(self).input().len()
                    &&& final(self).pos() == token_end(old(self).input(), old(self).pos())
                    &&& tok@ == old(self).input().subrange(old(self).pos(), final(self).pos())
                },
                None => {
                    &&& old(self).pos() == old(self).input().len()
                    &&& *final(self) == *old(self)
                },
            },
    {
        if self.current_pos >= self.len_chars {
            return None;
        }
        let text = self.text;
        let start_pos = self.current_pos;

        if let Some(end_pos) = self.try_match_apostrophe_contractions(start_pos) {
            self.current_pos = end_pos;
            return Some(text.substring_char(start_pos, end_pos));
        }
        if let Some(end_pos) = self.try_match_optional_nonalpha_plus_letters(start_pos) {
            self.current_pos = end_pos;
            return Some(text.substring_char(start_pos, end_pos));
        }
        if let Some(end_pos) = self.try_match_numbers_1_to_3(start_pos) {
            self.current_pos = end_pos;
            return Some(text.substring_char(start_pos, end_pos));
        }
        if let Some(end_pos) = self.try_match_space_plus_nonwhitespace_with_newlines(start_pos) {
            self.current_pos = end_pos;
            return Some(text.substring_char(start_pos, end_pos));
        }
        if let Some(end_pos) = self.try_match_whitespace_before_newlines(start_pos) {
            self.current_pos = end_pos;
            return Some(text.substring_char(start_pos, end_pos));
        }
        if let Some(end_pos) = self.try_match_whitespace_followed_by_whitespace_or_end(start_pos) {
            self.current_pos = end_pos;
            return Some(text.substring_char(start_pos, end_pos));
        }
        if let Some(end_pos) = self.try_match_any_whitespace(start_pos) {
            self.current_pos = end_pos;
            return Some(text.substring_char(start_pos, end_pos));
        }

        let end_pos = start_pos + self.char_len_at(start_pos);
        self.current_pos = end_pos;
        Some(text.substring_char(start_pos, end_pos))
    }
}

/// Scans the whole text and collects its ordered token sequence: the spans
/// that the priority ladder claims, one after the other, from the start of
/// the text to its end.
pub fn find_matches<'a>(text: &'a str) -> (r: Vec<&'a str>)
    ensures
        r@.map_values(|t: &str| t@) == token_texts(text@),
{
    let mut it = PatternIterator::new(text);
    let mut out: Vec<&'a str> = Vec::new();

    proof {
        assert(out@.map_values(|t: &str| t@) + texts_from(text@, 0) =~= token_texts(text@));
    }
    while it.current_pos < it.len_chars
        invariant
            it.wf(),
            it.input() == text@,
            out@.map_values(|t: &str| t@) + texts_from(text@, it.pos()) == token_texts(text@),
        decreases text@.len() - it.pos(),
    {
        let ghost it0 = it;
        let ghost out0 = out@;
        let tok_opt = it.next();
        match tok_opt {
            Some(tok) => {
                out.push(tok);
                proof {
                    lemma_texts_from_step(text@, it0.pos());
                    assert(out@.map_values(|t: &str| t@) =~= out0.map_values(|t: &str| t@)
                        + seq![tok@]);
                    assert(out@.map_values(|t: &str| t@) + texts_from(text@, it.pos())
                        =~= out0.map_values(|t: &str| t@) + texts_from(text@, it0.pos()));
                }
            },
            None => {},
        }
    }
    proof {
        lemma_texts_from_end(text@, it.pos());
        assert(out@.map_values(|t: &str| t@) =~= out@.map_values(|t: &str| t@) + texts_from(
            text@,
            it.pos(),
        ));
    }
    out
}

} // verus!
