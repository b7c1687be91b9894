//! Language-dependent scanning rules.
//!
//! Three scanners drive the tokenizer, all defined here directly over
//! character sequences:
//!
//! * the word tokenizer, which cuts a line into word and punctuation atoms;
//! * the period-context scanner, which finds every candidate break site (a
//!   sentence-ending character followed by punctuation or by whitespace and a
//!   following token);
//! * the boundary-realignment matcher, which recognizes a leading run of
//!   closing quotes or brackets at the start of a span.
//!
//! Each scanner has a recursive specification and an executable counterpart
//! proved equal to it.  The set of sentence-ending characters is configurable
//! at construction; the other character classes are fixed.

use vstd::prelude::*;
use crate::chars::{char_is_whitespace, is_ws_char};

verus! {

// ---------------------------------------------------------------------------
// Character classes
// ---------------------------------------------------------------------------

/// Punctuation that can never start a word, independent of the configured
/// sentence-ending characters.
pub open spec fn is_base_non_word(c: char) -> bool {
    c == ';' || c == ')' || c == '}' || c == '"' || c == ']' || c == '*' || c == ':' || c == '@'
        || c == '\'' || c == '(' || c == '{' || c == '['
}

/// The non-word class: the fixed punctuation plus every configured
/// sentence-ending character except the period.
pub open spec fn is_non_word(se: Seq<char>, c: char) -> bool {
    is_base_non_word(c) || (se.contains(c) && c != '.')
}

/// Characters at which a multi-character word may start.
pub open spec fn is_word_start(c: char) -> bool {
    !(c == '(' || c == '"' || c == '`' || c == '{' || c == '[' || c == ':' || c == ';' || c == '&'
        || c == '#' || c == '*' || c == '@' || c == ')' || c == '}' || c == ']' || c == '-' || c
        == ',')
}

/// Closing quotes and brackets recognized by boundary realignment.
pub open spec fn is_quote_char(c: char) -> bool {
    c == '"' || c == '\'' || c == ')' || c == ']' || c == '}'
}

fn base_non_word_exec(c: char) -> (r: bool)
    ensures
        r == is_base_non_word(c),
{
    c == ';' || c == ')' || c == '}' || c == '"' || c == ']' || c == '*' || c == ':' || c == '@'
        || c == '\'' || c == '(' || c == '{' || c == '['
}

fn word_start_exec(c: char) -> (r: bool)
    ensures
        r == is_word_start(c),
{
    !(c == '(' || c == '"' || c == '`' || c == '{' || c == '[' || c == ':' || c == ';' || c == '&'
        || c == '#' || c == '*' || c == '@' || c == ')' || c == '}' || c == ']' || c == '-' || c
        == ',')
}

fn quote_char_exec(c: char) -> (r: bool)
    ensures
        r == is_quote_char(c),
{
    c == '"' || c == '\'' || c == ')' || c == ']' || c == '}'
}

/// Membership of a character among the configured sentence enders.
pub fn char_vec_contains(v: &Vec<char>, c: char) -> (r: bool)
    ensures
        r == v@.contains(c),
{
    let mut i: usize = 0;
    while i < v.len()
        invariant
            i <= v@.len(),
            forall|k: int| 0 <= k < i ==> v@[k] != c,
        decreases v@.len() - i,
    {
        if v[i] == c {
            return true;
        }
        i += 1;
    }
    false
}

pub fn non_word_exec(se: &Vec<char>, c: char) -> (r: bool)
    ensures
        r == is_non_word(se@, c),
{
    base_non_word_exec(c) || (char_vec_contains(se, c) && c != '.')
}

// ---------------------------------------------------------------------------
// Character runs
// ---------------------------------------------------------------------------

/// The end of the run of whitespace starting at `i`.
pub open spec fn ws_run_end(s: Seq<char>, i: int) -> int
    decreases s.len() - i,
{
    if 0 <= i < s.len() && is_ws_char(s[i]) {
        ws_run_end(s, i + 1)
    } else {
        i
    }
}

/// The end of the run of non-whitespace starting at `i`.
pub open spec fn nonws_run_end(s: Seq<char>, i: int) -> int
    decreases s.len() - i,
{
    if 0 <= i < s.len() && !is_ws_char(s[i]) {
        nonws_run_end(s, i + 1)
    } else {
        i
    }
}

/// The end of the run of the character `c` starting at `i`.
pub open spec fn char_run_end(s: Seq<char>, i: int, c: char) -> int
    decreases s.len() - i,
{
    if 0 <= i < s.len() && s[i] == c {
        char_run_end(s, i + 1, c)
    } else {
        i
    }
}

pub proof fn lemma_ws_run(s: Seq<char>, i: int)
    requires
        0 <= i <= s.len(),
    ensures
        i <= ws_run_end(s, i) <= s.len(),
        forall|k: int| i <= k < ws_run_end(s, i) ==> is_ws_char(s[k]),
        ws_run_end(s, i) < s.len() ==> !is_ws_char(s[ws_run_end(s, i)]),
    decreases s.len() - i,
{
    if i < s.len() && is_ws_char(s[i]) {
        lemma_ws_run(s, i + 1);
    }
}

pub proof fn lemma_nonws_run(s: Seq<char>, i: int)
    requires
        0 <= i <= s.len(),
    ensures
        i <= nonws_run_end(s, i) <= s.len(),
        forall|k: int| i <= k < nonws_run_end(s, i) ==> !is_ws_char(s[k]),
        nonws_run_end(s, i) < s.len() ==> is_ws_char(s[nonws_run_end(s, i)]),
    decreases s.len() - i,
{
    if i < s.len() && !is_ws_char(s[i]) {
        lemma_nonws_run(s, i + 1);
    }
}

pub proof fn lemma_char_run(s: Seq<char>, i: int, c: char)
    requires
        0 <= i <= s.len(),
    ensures
        i <= char_run_end(s, i, c) <= s.len(),
        forall|k: int| i <= k < char_run_end(s, i, c) ==> s[k] == c,
        char_run_end(s, i, c) < s.len() ==> s[char_run_end(s, i, c)] != c,
    decreases s.len() - i,
{
    if i < s.len() && s[i] == c {
        lemma_char_run(s, i + 1, c);
    }
}

pub fn ws_run_end_exec(s: &str, i: usize) -> (r: usize)
    requires
        i <= s@.len(),
    ensures
        r == ws_run_end(s@, i as int),
        i <= r <= s@.len(),
{
    let n = s.unicode_len();
    let mut j: usize = i;
    while j < n
        invariant
            n == s@.len(),
            i <= j <= n,
            ws_run_end(s@, i as int) == ws_run_end(s@, j as int),
        decreases n - j,
    {
        if !char_is_whitespace(s.get_char(j)) {
            return j;
        }
        j += 1;
    }
    j
}

pub fn nonws_run_end_exec(s: &str, i: usize) -> (r: usize)
    requires
        i <= s@.len(),
    ensures
        r == nonws_run_end(s@, i as int),
        i <= r <= s@.len(),
{
    let n = s.unicode_len();
    let mut j: usize = i;
    while j < n
        invariant
            n == s@.len(),
            i <= j <= n,
            nonws_run_end(s@, i as int) == nonws_run_end(s@, j as int),
        decreases n - j,
    {
        if char_is_whitespace(s.get_char(j)) {
            return j;
        }
        j += 1;
    }
    j
}

fn char_run_end_exec(s: &str, i: usize, c: char) -> (r: usize)
    requires
        i <= s@.len(),
    ensures
        r == char_run_end(s@, i as int, c),
        i <= r <= s@.len(),
{
    let n = s.unicode_len();
    let mut j: usize = i;
    while j < n
        invariant
            n == s@.len(),
            i <= j <= n,
            char_run_end(s@, i as int, c) == char_run_end(s@, j as int, c),
        decreases n - j,
    {
        if s.get_char(j) != c {
            return j;
        }
        j += 1;
    }
    j
}

// ---------------------------------------------------------------------------
// Multi-character punctuation: runs of hyphens, runs of periods, and the
// spaced ellipsis ". . ."
// ---------------------------------------------------------------------------

/// How many `". "` (period, one whitespace) pairs follow from `i`.
pub open spec fn dot_space_pairs(s: Seq<char>, i: int) -> int
    decreases s.len() - i,
{
    if 0 <= i && i + 2 <= s.len() && s[i] == '.' && is_ws_char(s[i + 1]) {
        1 + dot_space_pairs(s, i + 2)
    } else {
        0
    }
}

/// The longest spaced ellipsis at `i` using at most `j` pairs: at least two
/// pairs followed by a final period.
pub open spec fn dot_space_match(s: Seq<char>, i: int, j: int) -> Option<int>
    decreases j,
{
    if j < 2 {
        None
    } else if i + 2 * j < s.len() && s[i + 2 * j] == '.' {
        Some(2 * j + 1)
    } else {
        dot_space_match(s, i, j - 1)
    }
}

/// The multi-character punctuation token starting at `i`, if any: two or more
/// hyphens, two or more periods, or a spaced ellipsis.
pub open spec fn multichar_len(s: Seq<char>, i: int) -> Option<int> {
    if 0 <= i && i + 1 < s.len() && s[i] == '-' && s[i + 1] == '-' {
        Some(char_run_end(s, i, '-') - i)
    } else if 0 <= i && i + 1 < s.len() && s[i] == '.' && s[i + 1] == '.' {
        Some(char_run_end(s, i, '.') - i)
    } else if 0 <= i && i < s.len() && s[i] == '.' {
        dot_space_match(s, i, dot_space_pairs(s, i))
    } else {
        None
    }
}

proof fn lemma_dot_space_pairs_bound(s: Seq<char>, i: int)
    requires
        0 <= i <= s.len(),
    ensures
        0 <= dot_space_pairs(s, i),
        i + 2 * dot_space_pairs(s, i) <= s.len(),
    decreases s.len() - i,
{
    if i + 2 <= s.len() && s[i] == '.' && is_ws_char(s[i + 1]) {
        lemma_dot_space_pairs_bound(s, i + 2);
    }
}

proof fn lemma_dot_space_match_bound(s: Seq<char>, i: int, j: int)
    requires
        0 <= i <= s.len(),
    ensures
        match dot_space_match(s, i, j) {
            Some(l) => 5 <= l && i + l <= s.len(),
            None => true,
        },
    decreases j,
{
    if j < 2 {
    } else if i + 2 * j < s.len() && s[i + 2 * j] == '.' {
    } else {
        lemma_dot_space_match_bound(s, i, j - 1);
    }
}

/// Bounds of a multi-character punctuation match.
pub proof fn lemma_multichar_bounds(s: Seq<char>, i: int)
    requires
        0 <= i <= s.len(),
    ensures
        match multichar_len(s, i) {
            Some(l) => 2 <= l && i + l <= s.len(),
            None => true,
        },
{
    if i + 1 < s.len() && s[i] == '-' && s[i + 1] == '-' {
        lemma_char_run(s, i, '-');
        assert(char_run_end(s, i, '-') == char_run_end(s, i + 1, '-'));
        assert(char_run_end(s, i + 1, '-') == char_run_end(s, i + 2, '-'));
        lemma_char_run(s, i + 2, '-');
    } else if i + 1 < s.len() && s[i] == '.' && s[i + 1] == '.' {
        lemma_char_run(s, i, '.');
        assert(char_run_end(s, i, '.') == char_run_end(s, i + 1, '.'));
        assert(char_run_end(s, i + 1, '.') == char_run_end(s, i + 2, '.'));
        lemma_char_run(s, i + 2, '.');
    } else if i < s.len() && s[i] == '.' {
        lemma_dot_space_match_bound(s, i, dot_space_pairs(s, i));
    }
}

fn dot_space_pairs_exec(s: &str, i: usize) -> (r: usize)
    requires
        i <= s@.len(),
    ensures
        r == dot_space_pairs(s@, i as int),
        i + 2 * r <= s@.len(),
{
    let n = s.unicode_len();
    let mut p: usize = 0;
    loop
        invariant
            n == s@.len(),
            i + 2 * p <= n,
            dot_space_pairs(s@, i as int) == p + dot_space_pairs(s@, i + 2 * p),
        decreases n - (i + 2 * p),
    {
        let base = i + 2 * p;
        if base < n && base + 1 < n && s.get_char(base) == '.' && char_is_whitespace(
            s.get_char(base + 1),
        ) {
            p += 1;
        } else {
            proof {
                assert(dot_space_pairs(s@, base as int) == 0);
            }
            return p;
        }
    }
}

fn multichar_len_exec(s: &str, i: usize) -> (r: Option<usize>)
    requires
        i <= s@.len(),
    ensures
        match r {
            Some(l) => multichar_len(s@, i as int) == Some(l as int) && 2 <= l && i + l <= s@.len(),
            None => multichar_len(s@, i as int) is None,
        },
{
    proof {
        lemma_multichar_bounds(s@, i as int);
    }
    let n = s.unicode_len();
    if i < n && i + 1 < n && s.get_char(i) == '-' && s.get_char(i + 1) == '-' {
        let e = char_run_end_exec(s, i, '-');
        Some(e - i)
    } else if i < n && i + 1 < n && s.get_char(i) == '.' && s.get_char(i + 1) == '.' {
        let e = char_run_end_exec(s, i, '.');
        Some(e - i)
    } else if i < n && s.get_char(i) == '.' {
        let p = dot_space_pairs_exec(s, i);
        let mut j: usize = p;
        while j >= 2
            invariant
                n == s@.len(),
                i + 2 * p <= n,
                j <= p,
                multichar_len(s@, i as int) == dot_space_match(s@, i as int, p as int),
                dot_space_match(s@, i as int, p as int) == dot_space_match(s@, i as int, j as int),
            decreases j,
        {
            if i + 2 * j < n && s.get_char(i + 2 * j) == '.' {
                return Some(2 * j + 1);
            }
            j -= 1;
        }
        None
    } else {
        None
    }
}

// ---------------------------------------------------------------------------
// The word tokenizer
// ---------------------------------------------------------------------------

/// Whether a word atom that started earlier must end at `e`: end of line,
/// whitespace, non-word punctuation, multi-character punctuation, or a comma
/// followed by one of those.
pub open spec fn word_break_at(se: Seq<char>, s: Seq<char>, e: int) -> bool {
    ||| e >= s.len()
    ||| is_ws_char(s[e])
    ||| is_non_word(se, s[e])
    ||| multichar_len(s, e) is Some
    ||| (s[e] == ',' && (e + 1 >= s.len() || is_ws_char(s[e + 1]) || is_non_word(se, s[e + 1])
        || multichar_len(s, e + 1) is Some))
}

/// The first break position at or after `e`.
pub open spec fn word_end(se: Seq<char>, s: Seq<char>, e: int) -> int
    decreases s.len() - e,
{
    if e >= s.len() {
        e
    } else if word_break_at(se, s, e) {
        e
    } else {
        word_end(se, s, e + 1)
    }
}

/// The word token starting at the non-whitespace position `j`: first
/// multi-character punctuation, else a word if the character may start one,
/// else the single character.
pub open spec fn next_word_token(se: Seq<char>, s: Seq<char>, j: int) -> (int, int) {
    match multichar_len(s, j) {
        Some(l) => (j, j + l),
        None => if is_word_start(s[j]) {
            (j, word_end(se, s, j + 1))
        } else {
            (j, j + 1)
        },
    }
}

/// All word tokens of `s` from position `i` on, as half-open offset pairs.
pub open spec fn word_tokens_from(se: Seq<char>, s: Seq<char>, i: int) -> Seq<(int, int)>
    decreases s.len() - i,
{
    if !(0 <= i < s.len()) {
        Seq::empty()
    } else if is_ws_char(s[i]) {
        word_tokens_from(se, s, i + 1)
    } else {
        let t = next_word_token(se, s, i);
        let e = if i < t.1 <= s.len() {
            t.1
        } else {
            i + 1
        };
        seq![(i, e)] + word_tokens_from(se, s, e)
    }
}

/// The surfaces of all word tokens of `s`.
pub open spec fn word_surfaces(se: Seq<char>, s: Seq<char>) -> Seq<Seq<char>> {
    word_tokens_from(se, s, 0).map_values(|p: (int, int)| s.subrange(p.0, p.1))
}

proof fn lemma_word_end_bounds(se: Seq<char>, s: Seq<char>, e: int)
    requires
        0 <= e <= s.len(),
    ensures
        e <= word_end(se, s, e) <= s.len(),
    decreases s.len() - e,
{
    if e < s.len() && !word_break_at(se, s, e) {
        lemma_word_end_bounds(se, s, e + 1);
    }
}

/// Every emitted token is a non-empty in-bounds interval, and consecutive
/// tokens do not overlap.
pub proof fn lemma_word_tokens_bounds(se: Seq<char>, s: Seq<char>, i: int)
    requires
        0 <= i,
    ensures
        forall|k: int|
            0 <= k < word_tokens_from(se, s, i).len() ==> {
                let p = #[trigger] word_tokens_from(se, s, i)[k];
                i <= p.0 < p.1 <= s.len()
            },
    decreases s.len() - i,
{
    if !(0 <= i < s.len()) {
    } else if is_ws_char(s[i]) {
        lemma_word_tokens_bounds(se, s, i + 1);
        assert(word_tokens_from(se, s, i) == word_tokens_from(se, s, i + 1));
    } else {
        let t = next_word_token(se, s, i);
        let e = if i < t.1 <= s.len() {
            t.1
        } else {
            i + 1
        };
        lemma_word_tokens_bounds(se, s, e);
        assert forall|k: int|
            0 <= k < word_tokens_from(se, s, i).len() implies {
            let p = #[trigger] word_tokens_from(se, s, i)[k];
            i <= p.0 < p.1 <= s.len()
        } by {
            if k == 0 {
                assert(word_tokens_from(se, s, i)[0] == (i, e));
            } else {
                assert(word_tokens_from(se, s, i)[k] == word_tokens_from(se, s, e)[k - 1]);
            }
        }
    }
}

fn word_break_at_exec(se: &Vec<char>, s: &str, e: usize) -> (r: bool)
    requires
        e <= s@.len(),
    ensures
        r == word_break_at(se@, s@, e as int),
{
    let n = s.unicode_len();
    if e >= n {
        return true;
    }
    let c = s.get_char(e);
    if char_is_whitespace(c) || non_word_exec(se, c) {
        return true;
    }
    if multichar_len_exec(s, e).is_some() {
        return true;
    }
    if c == ',' {
        if e + 1 >= n {
            return true;
        }
        let c2 = s.get_char(e + 1);
        if char_is_whitespace(c2) || non_word_exec(se, c2) {
            return true;
        }
        if multichar_len_exec(s, e + 1).is_some() {
            return true;
        }
    }
    false
}

fn word_end_exec(se: &Vec<char>, s: &str, e: usize) -> (r: usize)
    requires
        e <= s@.len(),
    ensures
        r == word_end(se@, s@, e as int),
        e <= r <= s@.len(),
{
    let n = s.unicode_len();
    let mut j: usize = e;
    while j < n
        invariant
            n == s@.len(),
            e <= j <= n,
            word_end(se@, s@, e as int) == word_end(se@, s@, j as int),
        decreases n - j,
    {
        if word_break_at_exec(se, s, j) {
            return j;
        }
        j += 1;
    }
    j
}

// ---------------------------------------------------------------------------
// The period-context scanner
// ---------------------------------------------------------------------------

/// The candidate at `e` is directly followed by non-word punctuation.
pub open spec fn pc_nonword_branch(se: Seq<char>, s: Seq<char>, e: int) -> bool {
    0 <= e && e + 1 < s.len() && is_non_word(se, s[e + 1])
}

/// The candidate at `e` is followed by whitespace and then a further token.
pub open spec fn pc_ws_branch(se: Seq<char>, s: Seq<char>, e: int) -> bool {
    0 <= e && e + 1 < s.len() && is_ws_char(s[e + 1]) && ws_run_end(s, e + 1) < s.len()
}

/// Whether position `e` is a candidate break site: a sentence-ending
/// character whose right context continues the document.
pub open spec fn pc_qualifies(se: Seq<char>, s: Seq<char>, e: int) -> bool {
    0 <= e < s.len() && se.contains(s[e]) && (pc_nonword_branch(se, s, e) || pc_ws_branch(
        se,
        s,
        e,
    ))
}

/// Where the trailing context of the candidate at `e` ends: one punctuation
/// character, or the whitespace run and the token after it.
pub open spec fn pc_after_tok_end(se: Seq<char>, s: Seq<char>, e: int) -> int {
    if pc_nonword_branch(se, s, e) {
        e + 2
    } else {
        nonws_run_end(s, ws_run_end(s, e + 1))
    }
}

/// Where the token following the candidate at `e` starts, when the context
/// continues with whitespace.
pub open spec fn pc_next_tok_start(se: Seq<char>, s: Seq<char>, e: int) -> Option<int> {
    if pc_nonword_branch(se, s, e) {
        None
    } else {
        Some(ws_run_end(s, e + 1))
    }
}

/// The right-most candidate position in `[lo, hi)`.
pub open spec fn best_sentend(se: Seq<char>, s: Seq<char>, lo: int, hi: int) -> Option<int>
    decreases hi - lo,
{
    if hi <= lo {
        None
    } else if pc_qualifies(se, s, hi - 1) {
        Some(hi - 1)
    } else {
        best_sentend(se, s, lo, hi - 1)
    }
}

/// The left-most period-context match at or after `pos`: the start of the
/// word containing the candidate, and the candidate position itself.
pub open spec fn find_pc(se: Seq<char>, s: Seq<char>, pos: int) -> Option<(int, int)>
    decreases s.len() - pos,
{
    if !(0 <= pos < s.len()) {
        None
    } else if is_ws_char(s[pos]) {
        find_pc(se, s, pos + 1)
    } else {
        let r0 = nonws_run_end(s, pos);
        let r = if pos < r0 <= s.len() {
            r0
        } else {
            pos + 1
        };
        match best_sentend(se, s, pos, r) {
            Some(e) => Some((pos, e)),
            None => find_pc(se, s, r),
        }
    }
}

pub proof fn lemma_best_sentend(se: Seq<char>, s: Seq<char>, lo: int, hi: int)
    ensures
        match best_sentend(se, s, lo, hi) {
            Some(e) => lo <= e < hi && pc_qualifies(se, s, e),
            None => true,
        },
    decreases hi - lo,
{
    if hi <= lo {
    } else if pc_qualifies(se, s, hi - 1) {
    } else {
        lemma_best_sentend(se, s, lo, hi - 1);
    }
}

/// A period-context match lies within the document, at or after the scan
/// position, and its candidate qualifies.
pub proof fn lemma_find_pc(se: Seq<char>, s: Seq<char>, pos: int)
    requires
        0 <= pos,
    ensures
        match find_pc(se, s, pos) {
            Some(m) => pos <= m.0 <= m.1 && m.1 < s.len() && pc_qualifies(se, s, m.1),
            None => true,
        },
    decreases s.len() - pos,
{
    if !(0 <= pos < s.len()) {
    } else if is_ws_char(s[pos]) {
        lemma_find_pc(se, s, pos + 1);
    } else {
        let r0 = nonws_run_end(s, pos);
        let r = if pos < r0 <= s.len() {
            r0
        } else {
            pos + 1
        };
        lemma_best_sentend(se, s, pos, r);
        lemma_find_pc(se, s, r);
    }
}

fn pc_qualifies_exec(se: &Vec<char>, s: &str, e: usize) -> (r: bool)
    requires
        e < s@.len(),
    ensures
        r == pc_qualifies(se@, s@, e as int),
{
    let n = s.unicode_len();
    if !char_vec_contains(se, s.get_char(e)) {
        return false;
    }
    if e + 1 < n {
        let c2 = s.get_char(e + 1);
        if non_word_exec(se, c2) {
            return true;
        }
        if char_is_whitespace(c2) {
            let w = ws_run_end_exec(s, e + 1);
            return w < n;
        }
    }
    false
}

/// Finds the left-most period-context match at or after `pos`.
pub fn find_pc_exec(se: &Vec<char>, s: &str, pos: usize) -> (r: Option<(usize, usize)>)
    requires
        pos <= s@.len(),
    ensures
        match r {
            Some(m) => find_pc(se@, s@, pos as int) == Some((m.0 as int, m.1 as int)) && pos <= m.0
                <= m.1 < s@.len(),
            None => find_pc(se@, s@, pos as int) is None,
        },
{
    let n = s.unicode_len();
    let mut p: usize = pos;
    while p < n
        invariant
            n == s@.len(),
            pos <= p <= n,
            find_pc(se@, s@, pos as int) == find_pc(se@, s@, p as int),
        decreases n - p,
    {
        if char_is_whitespace(s.get_char(p)) {
            p += 1;
        } else {
            let r = nonws_run_end_exec(s, p);
            proof {
                lemma_nonws_run(s@, p + 1);
                assert(nonws_run_end(s@, p as int) == nonws_run_end(s@, p + 1));
            }
            let mut k: usize = r;
            while k > p
                invariant
                    n == s@.len(),
                    pos <= p < n,
                    p <= k <= r,
                    r <= n,
                    !is_ws_char(s@[p as int]),
                    r == nonws_run_end(s@, p as int),
                    p < r,
                    find_pc(se@, s@, pos as int) == find_pc(se@, s@, p as int),
                    best_sentend(se@, s@, p as int, r as int) == best_sentend(
                        se@,
                        s@,
                        p as int,
                        k as int,
                    ),
                decreases k,
            {
                if pc_qualifies_exec(se, s, k - 1) {
                    return Some((p, k - 1));
                }
                k -= 1;
            }
            p = r;
        }
    }
    None
}

// ---------------------------------------------------------------------------
// The boundary-realignment matcher
// ---------------------------------------------------------------------------

/// What the boundary-realignment pattern accepts at prefix length `k`:
/// whitespace (whose run it consumes), a double hyphen ahead, or the end of
/// the span.  The result is `(match end, quote prefix length)`.
pub open spec fn bmatch_at(t: Seq<char>, k: int) -> Option<(int, int)> {
    if 0 <= k < t.len() && is_ws_char(t[k]) {
        Some((ws_run_end(t, k), k))
    } else if 0 <= k && k + 2 <= t.len() && t[k] == '-' && t[k + 1] == '-' {
        Some((k, k))
    } else if k == t.len() {
        Some((k, k))
    } else {
        None
    }
}

/// The shortest quote prefix of length at least `k` that the pattern accepts.
pub open spec fn bmatch_from(t: Seq<char>, k: int) -> Option<(int, int)>
    decreases t.len() + 1 - k,
{
    if !(1 <= k <= t.len()) {
        None
    } else if !is_quote_char(t[k - 1]) {
        None
    } else {
        match bmatch_at(t, k) {
            Some(m) => Some(m),
            None => bmatch_from(t, k + 1),
        }
    }
}

/// The boundary-realignment match against the start of `t`: a shortest
/// non-empty run of closing quotes or brackets followed by whitespace, a
/// double hyphen, or the end.
pub open spec fn bmatch(t: Seq<char>) -> Option<(int, int)> {
    bmatch_from(t, 1)
}

/// Matches the boundary-realignment pattern against the start of `t`.
pub fn bmatch_exec(t: &str) -> (r: Option<(usize, usize)>)
    ensures
        match r {
            Some(m) => bmatch(t@) == Some((m.0 as int, m.1 as int)) && 1 <= m.1 <= m.0 <= t@.len(),
            None => bmatch(t@) is None,
        },
{
    let n = t.unicode_len();
    let mut k: usize = 1;
    while k <= n
        invariant
            n == t@.len(),
            1 <= k <= n + 1,
            bmatch(t@) == bmatch_from(t@, k as int),
        decreases n + 1 - k,
    {
        if !quote_char_exec(t.get_char(k - 1)) {
            return None;
        }
        if k < n && char_is_whitespace(t.get_char(k)) {
            let w = ws_run_end_exec(t, k);
            return Some((w, k));
        }
        if k < n && k + 1 < n && t.get_char(k) == '-' && t.get_char(k + 1) == '-' {
            return Some((k, k));
        }
        if k == n {
            return Some((k, k));
        }
        k += 1;
    }
    None
}

// ---------------------------------------------------------------------------
// The language variable bundles
// ---------------------------------------------------------------------------

/// The fixed scanning tables: the set of sentence-ending characters.
pub struct PunktLanguageStaticVars {
    pub sent_end_chars: Vec<char>,
}

impl PunktLanguageStaticVars {
    /// Keeps the configured sentence enders.
    pub fn new(sent_end_chars: Vec<char>) -> (r: PunktLanguageStaticVars)
        ensures
            r.sent_end_chars@ == sent_end_chars@,
    {
        PunktLanguageStaticVars { sent_end_chars }
    }
}

/// The scanners built from the static tables.
pub struct PunktLanguagePros {
    pub sent_end_chars: Vec<char>,
}

/// The static tables together with the scanners built from them.
pub struct PunktLanguageVars {
    pub punkt_language_static_vars: PunktLanguageStaticVars,
    pub punkt_language_pros: PunktLanguagePros,
}

impl PunktLanguageVars {
    /// The configured sentence-ending characters.
    pub open spec fn se(&self) -> Seq<char> {
        self.punkt_language_static_vars.sent_end_chars@
    }

    /// The built scanners agree with the static tables.
    pub open spec fn wf(&self) -> bool {
        self.punkt_language_pros.sent_end_chars@ == self.punkt_language_static_vars.sent_end_chars@
    }

    /// Language variables over a custom set of sentence-ending characters,
    /// which must not include whitespace or word-start characters.
    pub fn with_sent_end_chars(sent_end_chars: Vec<char>) -> (r: PunktLanguageVars)
        ensures
            r.wf(),
            r.se() == sent_end_chars@,
    {
        let mut copy: Vec<char> = Vec::new();
        let mut i: usize = 0;
        while i < sent_end_chars.len()
            invariant
                i <= sent_end_chars@.len(),
                copy@ =~= sent_end_chars@.subrange(0, i as int),
            decreases sent_end_chars@.len() - i,
        {
            copy.push(sent_end_chars[i]);
            i += 1;
        }
        proof {
            assert(copy@ =~= sent_end_chars@);
        }
        PunktLanguageVars {
            punkt_language_static_vars: PunktLanguageStaticVars { sent_end_chars },
            punkt_language_pros: PunktLanguagePros { sent_end_chars: copy },
        }
    }

    /// The default language variables: sentences end at `.`, `?` and `!`.
    pub fn new() -> (r: PunktLanguageVars)
        ensures
            r.wf(),
            r.se() =~= seq!['.', '?', '!'],
    {
        let mut a: Vec<char> = Vec::new();
        a.push('.');
        a.push('?');
        a.push('!');
        let mut b: Vec<char> = Vec::new();
        b.push('.');
        b.push('?');
        b.push('!');
        proof {
            assert(a@ =~= seq!['.', '?', '!']);
            assert(b@ =~= seq!['.', '?', '!']);
        }
        PunktLanguageVars {
            punkt_language_static_vars: PunktLanguageStaticVars { sent_end_chars: a },
            punkt_language_pros: PunktLanguagePros { sent_end_chars: b },
        }
    }

    /// Cuts one line into its word and punctuation atoms, in order.
    pub fn word_tokenize(&self, string: String) -> (r: Vec<String>)
        requires
            self.wf(),
        ensures
            r@.map_values(|t: String| t@) =~= word_surfaces(self.se(), string@),
    {
        let s = string.as_str();
        let n = s.unicode_len();
        let se = &self.punkt_language_pros.sent_end_chars;
        let mut out: Vec<String> = Vec::new();
        let ghost mut done: Seq<(int, int)> = Seq::empty();
        let mut i: usize = 0;
        while i < n
            invariant
                self.wf(),
                se@ == self.se(),
                n == s@.len(),
                s@ == string@,
                i <= n,
                word_tokens_from(se@, s@, 0) == done + word_tokens_from(se@, s@, i as int),
                out@.len() == done.len(),
                forall|k: int|
                    0 <= k < done.len() ==> 0 <= #[trigger] done[k].0 < done[k].1 <= s@.len(),
                forall|k: int|
                    0 <= k < done.len() ==> out@[k]@ == s@.subrange(
                        #[trigger] done[k].0,
                        done[k].1,
                    ),
            decreases n - i,
        {
            let c = s.get_char(i);
            if char_is_whitespace(c) {
                i += 1;
            } else {
                let end: usize = match multichar_len_exec(s, i) {
                    Some(l) => i + l,
                    None => {
                        if word_start_exec(c) {
                            word_end_exec(se, s, i + 1)
                        } else {
                            i + 1
                        }
                    },
                };
                proof {
                    let t = next_word_token(se@, s@, i as int);
                    assert(t.1 == end);
                    assert(i < end <= n);
                }
                let sub = s.substring_char(i, end);
                out.push(String::from_str(sub));
                proof {
                    let done0 = done;
                    assert(0 <= (i as int) < (end as int) <= s@.len());
                    done = done.push((i as int, end as int));
                    assert forall|kk: int| 0 <= kk < done.len() implies 0 <= #[trigger] done[kk].0
                        < done[kk].1 <= s@.len() by {
                        if kk < done0.len() {
                            assert(done[kk] == done0[kk]);
                            assert(0 <= done0[kk].0 < done0[kk].1 <= s@.len());
                        } else {
                            assert(done[kk] == (i as int, end as int));
                        }
                    }
                }
                i = end;
            }
        }
        proof {
            assert(word_tokens_from(se@, s@, i as int) =~= Seq::<(int, int)>::empty());
            assert(word_tokens_from(se@, s@, 0) == done);
            assert forall|k: int| 0 <= k < done.len() implies out@.map_values(|t: String| t@)[k]
                == word_surfaces(self.se(), string@)[k] by {
            }
        }
        out
    }
}

} // verus!
