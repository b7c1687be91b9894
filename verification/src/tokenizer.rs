//! The sentence tokenizer pipeline.
//!
//! A document is cut into lines and word atoms, every token is annotated in
//! two passes (a local pass using the abbreviation set, then a contextual
//! pass using collocations, sentence starters and orthographic evidence), and
//! the period-context scanner turns the annotations into sentence spans.  An
//! optional realignment pass attaches trailing quotes and brackets to the
//! preceding sentence.
//!
//! Every stage is specified as a function over character sequences and token
//! models, and each executable stage is proved to compute its specification.

use vstd::prelude::*;
use crate::chars::{is_ws_char, lower_of, lowercase};
use crate::lang::{
    char_vec_contains, find_pc, find_pc_exec, nonws_run_end_exec, pc_after_tok_end,
    pc_next_tok_start, word_surfaces, ws_run_end, ws_run_end_exec, bmatch, bmatch_exec,
    lemma_find_pc, lemma_word_tokens_bounds, lemma_nonws_run, lemma_ws_run, non_word_exec,
    PunktLanguageVars,
};
use crate::params::{
    PunktParameters, ORTHO_BEG_LC, ORTHO_LC, ORTHO_MID_UC, ORTHO_UC,
};
use crate::slice::StringSlice;
use crate::token::{
    number_typ, spec_is_ellipsis, spec_is_initial, PunktToken, TokM,
};
use crate::strutil::str_eq;

verus! {

// ---------------------------------------------------------------------------
// Lines
// ---------------------------------------------------------------------------

/// The position of the next line feed at or after `i`, or the end.
pub open spec fn next_nl(s: Seq<char>, i: int) -> int
    decreases s.len() - i,
{
    if 0 <= i < s.len() && s[i] != '\n' {
        next_nl(s, i + 1)
    } else {
        i
    }
}

/// The line starting at `i`, without its line feed and without the carriage
/// return of a `\r\n` ending; a bare final carriage return is kept, as
/// `str::lines` keeps it.
pub open spec fn line_at(s: Seq<char>, i: int) -> Seq<char> {
    let e = next_nl(s, i);
    if i < e && e < s.len() && s[e - 1] == '\r' {
        s.subrange(i, e - 1)
    } else {
        s.subrange(i, e)
    }
}

/// The lines of `s` from position `i` on, split at line feeds; a final line
/// terminator does not open a further empty line.
pub open spec fn spec_lines_from(s: Seq<char>, i: int) -> Seq<Seq<char>>
    decreases s.len() - i,
{
    if !(0 <= i < s.len()) {
        Seq::empty()
    } else {
        let e0 = next_nl(s, i);
        let e = if i <= e0 <= s.len() {
            e0
        } else {
            i
        };
        let next = if e + 1 <= s.len() {
            e + 1
        } else {
            s.len() as int
        };
        seq![line_at(s, i)] + spec_lines_from(s, next)
    }
}

/// Whether a line holds only whitespace.
pub open spec fn is_blank_line(line: Seq<char>) -> bool {
    forall|k: int| 0 <= k < line.len() ==> is_ws_char(line[k])
}

fn next_nl_exec(s: &str, i: usize) -> (r: usize)
    requires
        i <= s@.len(),
    ensures
        r == next_nl(s@, i as int),
        i <= r <= s@.len(),
{
    let n = s.unicode_len();
    let mut j: usize = i;
    while j < n
        invariant
            n == s@.len(),
            i <= j <= n,
            next_nl(s@, i as int) == next_nl(s@, j as int),
        decreases n - j,
    {
        if s.get_char(j) == '\n' {
            return j;
        }
        j += 1;
    }
    j
}

fn is_blank_exec(line: &str) -> (r: bool)
    ensures
        r == is_blank_line(line@),
{
    let n = line.unicode_len();
    let w = ws_run_end_exec(line, 0);
    proof {
        lemma_ws_run(line@, 0);
    }
    w == n
}

// ---------------------------------------------------------------------------
// Tokens of a document
// ---------------------------------------------------------------------------

/// The annotated tokens of one line: each word surface, flagged with the
/// line's provenance; only the first token carries the pending paragraph
/// flag.
pub open spec fn line_tokens(se: Seq<char>, line: Seq<char>, parastart: bool) -> Seq<TokM> {
    Seq::new(
        word_surfaces(se, line).len(),
        |k: int|
            TokM {
                surface: word_surfaces(se, line)[k],
                para_start: Some(k == 0 && parastart),
                line_start: Some(true),
                sent_break: None,
                abbr: None,
                ellipsis: None,
            },
    )
}

/// The tokens of the lines from `li` on; a blank line sets the pending
/// paragraph flag, which the next token consumes.
pub open spec fn words_in_lines(
    se: Seq<char>,
    lines: Seq<Seq<char>>,
    li: int,
    parastart: bool,
) -> Seq<TokM>
    decreases lines.len() - li,
{
    if !(0 <= li < lines.len()) {
        Seq::empty()
    } else if is_blank_line(lines[li]) {
        words_in_lines(se, lines, li + 1, true)
    } else if word_surfaces(se, lines[li]).len() == 0 {
        words_in_lines(se, lines, li + 1, parastart)
    } else {
        line_tokens(se, lines[li], parastart) + words_in_lines(se, lines, li + 1, false)
    }
}

/// All annotated tokens of a document, before any classification.
pub open spec fn spec_tokenize_words(se: Seq<char>, text: Seq<char>) -> Seq<TokM> {
    words_in_lines(se, spec_lines_from(text, 0), 0, false)
}

// ---------------------------------------------------------------------------
// First-pass annotation
// ---------------------------------------------------------------------------

/// The suffix of `s` after its last hyphen; all of `s` when it has none.
pub open spec fn hyphen_suffix(s: Seq<char>) -> Seq<char>
    decreases s.len(),
{
    if s.len() == 0 {
        s
    } else if s.last() == '-' {
        Seq::empty()
    } else {
        hyphen_suffix(s.drop_last()).push(s.last())
    }
}

/// The first, local classification of one token: a lone sentence-ending
/// character is a break; an all-period token is an ellipsis; a period-final
/// token (not ending in two periods) is an abbreviation when its stem or the
/// stem's last hyphen part is known, else a break.
pub open spec fn spec_first_pass(se: Seq<char>, p: PunktParameters, t: TokM) -> TokM {
    if t.surface.len() == 1 && se.contains(t.surface[0]) {
        TokM { sent_break: Some(true), ..t }
    } else if spec_is_ellipsis(t.surface) {
        TokM { ellipsis: Some(true), ..t }
    } else if t.period_final() && !(t.surface.len() >= 2 && t.surface[t.surface.len() - 2]
        == '.') {
        let stem = lower_of(t.surface.drop_last());
        if p.spec_has_abbrev(stem) || p.spec_has_abbrev(hyphen_suffix(stem)) {
            TokM { abbr: Some(true), ..t }
        } else {
            TokM { sent_break: Some(true), ..t }
        }
    } else {
        t
    }
}

/// The first pass applied to every token independently.
pub open spec fn spec_first_pass_all(se: Seq<char>, p: PunktParameters, toks: Seq<TokM>) -> Seq<
    TokM,
> {
    toks.map_values(|t: TokM| spec_first_pass(se, p, t))
}

proof fn lemma_hyphen_suffix_none(s: Seq<char>)
    requires
        forall|k: int| 0 <= k < s.len() ==> s[k] != '-',
    ensures
        hyphen_suffix(s) =~= s,
    decreases s.len(),
{
    if s.len() > 0 {
        lemma_hyphen_suffix_none(s.drop_last());
    }
}

proof fn lemma_hyphen_suffix_at(s: Seq<char>, k: int)
    requires
        0 <= k < s.len(),
        s[k] == '-',
        forall|m: int| k < m < s.len() ==> s[m] != '-',
    ensures
        hyphen_suffix(s) =~= s.subrange(k + 1, s.len() as int),
    decreases s.len(),
{
    if k == s.len() - 1 {
    } else {
        lemma_hyphen_suffix_at(s.drop_last(), k);
    }
}

/// The suffix of `s` after its last hyphen.
fn hyphen_suffix_exec(s: &str) -> (r: String)
    ensures
        r@ == hyphen_suffix(s@),
{
    let n = s.unicode_len();
    let mut i: usize = n;
    while i > 0
        invariant
            n == s@.len(),
            i <= n,
            forall|m: int| i <= m < n ==> s@[m] != '-',
        decreases i,
    {
        if s.get_char(i - 1) == '-' {
            proof {
                lemma_hyphen_suffix_at(s@, i - 1);
            }
            let sub = s.substring_char(i, n);
            return String::from_str(sub);
        }
        i -= 1;
    }
    proof {
        lemma_hyphen_suffix_none(s@);
    }
    String::from_str(s.substring_char(0, n))
}

// ---------------------------------------------------------------------------
// The orthographic heuristic and the second pass
// ---------------------------------------------------------------------------

/// The three-valued answer of the orthographic heuristic.  Collapsing
/// `Unknown` into either boolean answer is incorrect: the second pass treats
/// the three cases differently.
#[derive(Clone, Copy, Debug, PartialEq, Eq, Structural)]
pub enum OrthoDecision {
    Breaks,
    NoBreak,
    Unknown,
}

/// Tokens that are bare internal or terminal punctuation.
pub open spec fn is_punct_tok(s: Seq<char>) -> bool {
    s.len() == 1 && (s[0] == ';' || s[0] == ':' || s[0] == ',' || s[0] == '.' || s[0] == '!'
        || s[0] == '?')
}

/// Decides from orthographic evidence whether the token begins a sentence:
/// punctuation never does; an upper-case first token whose type was seen
/// lower-case but never upper-case mid-sentence does; a lower-case first
/// token whose type was seen upper-case but never lower-case at a beginning
/// does not; anything else is unknown.
pub open spec fn spec_ortho_heuristic(p: PunktParameters, t: TokM) -> OrthoDecision {
    if is_punct_tok(t.surface) {
        OrthoDecision::NoBreak
    } else {
        let oc = p.spec_ortho(t.type_no_sent_period());
        if t.first_upper() && (oc & ORTHO_LC) != 0 && (oc & ORTHO_MID_UC) == 0 {
            OrthoDecision::Breaks
        } else if t.first_lower() && (oc & ORTHO_UC) != 0 && (oc & ORTHO_BEG_LC) == 0 {
            OrthoDecision::NoBreak
        } else {
            OrthoDecision::Unknown
        }
    }
}

/// The contextual reclassification of `t1` given the following token: a
/// known collocation suppresses the break; a known abbreviation or ellipsis
/// is rescued into a break by orthographic evidence or a known sentence
/// starter; an initial or number is suppressed when the evidence speaks
/// against a break.
pub open spec fn spec_second_pass(p: PunktParameters, t1: TokM, t2: Option<TokM>) -> TokM {
    match t2 {
        None => t1,
        Some(t2) => {
            if !t1.period_final() {
                t1
            } else {
                let typ = t1.type_no_period();
                let next_typ = t2.type_no_sent_period();
                let isini = spec_is_initial(t1.surface);
                if p.spec_has_collocation(typ, next_typ) {
                    TokM { sent_break: Some(false), abbr: Some(true), ..t1 }
                } else if (t1.abbr == Some(true) || t1.ellipsis == Some(true)) && !isini
                    && spec_ortho_heuristic(p, t2) == OrthoDecision::Breaks {
                    TokM { sent_break: Some(true), ..t1 }
                } else if (t1.abbr == Some(true) || t1.ellipsis == Some(true)) && !isini
                    && t2.first_upper() && p.spec_has_starter(next_typ) {
                    TokM { sent_break: Some(true), ..t1 }
                } else if (isini || typ == number_typ()) && spec_ortho_heuristic(p, t2)
                    == OrthoDecision::NoBreak {
                    TokM { sent_break: Some(false), abbr: Some(true), ..t1 }
                } else if (isini || typ == number_typ()) && spec_ortho_heuristic(p, t2)
                    == OrthoDecision::Unknown && isini && t2.first_upper() && (p.spec_ortho(
                    next_typ,
                ) & ORTHO_LC) == 0 {
                    TokM { sent_break: Some(false), abbr: Some(true), ..t1 }
                } else {
                    t1
                }
            }
        },
    }
}

/// The second pass applied to every adjacent pair, each token read against
/// its first-pass neighbour.
pub open spec fn spec_second_pass_all(p: PunktParameters, toks: Seq<TokM>) -> Seq<TokM> {
    Seq::new(
        toks.len(),
        |k: int|
            spec_second_pass(
                p,
                toks[k],
                if k + 1 < toks.len() {
                    Some(toks[k + 1])
                } else {
                    None
                },
            ),
    )
}

/// Both annotation passes over the tokens of a document.
pub open spec fn spec_annotated(se: Seq<char>, p: PunktParameters, text: Seq<char>) -> Seq<TokM> {
    spec_second_pass_all(p, spec_first_pass_all(se, p, spec_tokenize_words(se, text)))
}

/// Whether some non-final token of the fragment is a sentence break.  The
/// last token is the candidate under evaluation and cannot confirm itself.
pub open spec fn spec_contains_sentbreak(se: Seq<char>, p: PunktParameters, text: Seq<char>) -> bool {
    let anns = spec_annotated(se, p, text);
    exists|k: int| 0 <= k < anns.len() - 1 && anns[k].sent_break == Some(true)
}

// ---------------------------------------------------------------------------
// The base tokenizer: word tokenization and the first pass
// ---------------------------------------------------------------------------

/// Language variables and learned parameters, with the word-level stages.
pub struct PunktBaseClass {
    pub lang_vars: PunktLanguageVars,
    pub params: PunktParameters,
}

impl PunktBaseClass {
    /// The scanners agree with their tables.
    pub open spec fn wf(&self) -> bool {
        self.lang_vars.wf()
    }

    /// The configured sentence-ending characters.
    pub open spec fn se(&self) -> Seq<char> {
        self.lang_vars.se()
    }

    /// Combines the given language variables and parameters, supplying
    /// defaults for the missing ones.
    pub fn new(lang_vars: Option<PunktLanguageVars>, params: Option<PunktParameters>) -> (r:
        PunktBaseClass)
        requires
            match lang_vars {
                Some(lv) => lv.wf(),
                None => true,
            },
        ensures
            r.wf(),
            match lang_vars {
                Some(lv) => r.lang_vars == lv,
                None => r.se() =~= seq!['.', '?', '!'],
            },
            match params {
                Some(p) => r.params == p,
                None => r.params.abbrev_types@.len() == 0 && r.params.collocations@.len() == 0
                    && r.params.sent_starters@.len() == 0 && r.params.ortho_context@.len() == 0,
            },
    {
        let lv = match lang_vars {
            Some(lv) => lv,
            None => PunktLanguageVars::new(),
        };
        let p = match params {
            Some(p) => p,
            None => PunktParameters::new(),
        };
        PunktBaseClass { lang_vars: lv, params: p }
    }

    /// Cuts a document into annotated tokens, line by line; a blank line
    /// flags the next token as a paragraph start.
    pub fn _tokenize_words(&self, plaintext: &str) -> (r: Vec<PunktToken>)
        requires
            self.wf(),
        ensures
            r@.map_values(|t: PunktToken| t.model()) =~= spec_tokenize_words(self.se(), plaintext@),
            forall|k: int| 0 <= k < r@.len() ==> (#[trigger] r@[k]).wf(),
            forall|k: int| 0 <= k < r@.len() ==> (#[trigger] r@[k]).token@.len() > 0,
    {
        let s = plaintext;
        let n = s.unicode_len();
        let ghost lines = spec_lines_from(s@, 0);
        let mut tokens: Vec<PunktToken> = Vec::new();
        let mut parastart = false;
        let mut i: usize = 0;
        let ghost mut li: int = 0;
        while i < n
            invariant
                self.wf(),
                n == s@.len(),
                i <= n,
                lines == spec_lines_from(s@, 0),
                0 <= li,
                spec_lines_from(s@, i as int) =~= lines.skip(li),
                li <= lines.len(),
                i < n ==> li < lines.len(),
                words_in_lines(self.se(), lines, 0, false) =~= tokens@.map_values(
                    |t: PunktToken| t.model(),
                ) + words_in_lines(self.se(), lines, li, parastart),
                forall|k: int| 0 <= k < tokens@.len() ==> (#[trigger] tokens@[k]).wf(),
                forall|k: int| 0 <= k < tokens@.len() ==> (#[trigger] tokens@[k]).token@.len() > 0,
            decreases n - i,
        {
            let e = next_nl_exec(s, i);
            let line_end = if e > i && e < n && s.get_char(e - 1) == '\r' {
                e - 1
            } else {
                e
            };
            let line = s.substring_char(i, line_end);
            proof {
                assert(line@ == line_at(s@, i as int));
                assert(lines.skip(li)[0] == line_at(s@, i as int));
                assert(lines[li] == line@);
            }
            if !is_blank_exec(line) {
                let line_string = String::from_str(line);
                let toks = self.lang_vars.word_tokenize(line_string);
                proof {
                    lemma_word_tokens_bounds(self.se(), line@, 0);
                }
                if toks.len() > 0 {
                    let ghost tokens0 = tokens@;
                    let ghost lt = line_tokens(self.se(), line@, parastart);
                    let mut tj: usize = 0;
                    let first_para = parastart;
                    while tj < toks.len()
                        invariant
                            tj <= toks@.len(),
                            toks@.map_values(|t: String| t@) =~= word_surfaces(
                                self.se(),
                                line@,
                            ),
                            lt == line_tokens(self.se(), line@, first_para),
                            toks@.len() == lt.len(),
                            tokens@.map_values(|t: PunktToken| t.model()) =~= tokens0.map_values(
                                |t: PunktToken| t.model(),
                            ) + lt.subrange(0, tj as int),
                            tokens@.len() == tokens0.len() + tj,
                            forall|k: int|
                                0 <= k < tokens@.len() ==> (#[trigger] tokens@[k]).wf(),
                            forall|k: int|
                                0 <= k < tokens@.len() ==> (#[trigger] tokens@[k]).token@.len()
                                    > 0,
                            forall|k: int|
                                0 <= k < lt.len() ==> (#[trigger] lt[k]).surface.len() > 0,
                        decreases toks@.len() - tj,
                    {
                        let para_flag = if tj == 0 {
                            first_para
                        } else {
                            false
                        };
                        let t = PunktToken::new(toks[tj].as_str(), para_flag, true);
                        proof {
                            assert(t.model() == lt[tj as int]);
                            assert(tokens@.push(t).map_values(|x: PunktToken| x.model())
                                =~= tokens@.map_values(|x: PunktToken| x.model()).push(t.model()));
                            assert(tokens0.map_values(|x: PunktToken| x.model()) + lt.subrange(
                                0,
                                tj as int,
                            ).push(t.model()) =~= tokens0.map_values(|x: PunktToken| x.model())
                                + lt.subrange(0, tj + 1));
                        }
                        tokens.push(t);
                        tj += 1;
                    }
                    parastart = false;
                    proof {
                        assert(lt.subrange(0, lt.len() as int) =~= lt);
                    }
                }
            } else {
                parastart = true;
            }
            let next_i = if e < n {
                e + 1
            } else {
                n
            };
            proof {
                li = li + 1;
                assert(spec_lines_from(s@, next_i as int) =~= spec_lines_from(
                    s@,
                    i as int,
                ).skip(1));
                assert(spec_lines_from(s@, next_i as int) =~= lines.skip(li));
            }
            i = next_i;
        }
        proof {
            assert(spec_lines_from(s@, i as int) =~= Seq::<Seq<char>>::empty());
            assert(lines.skip(li) =~= Seq::<Seq<char>>::empty());
            assert(li >= lines.len());
            assert(words_in_lines(self.se(), lines, li, parastart) =~= Seq::<TokM>::empty());
        }
        tokens
    }

    /// Applies the first, local classification to every token.
    pub fn _annotate_first_pass(&self, tokens: Vec<PunktToken>) -> (r: Vec<PunktToken>)
        requires
            self.wf(),
            forall|k: int| 0 <= k < tokens@.len() ==> (#[trigger] tokens@[k]).wf(),
        ensures
            r@.map_values(|t: PunktToken| t.model()) =~= spec_first_pass_all(
                self.se(),
                self.params,
                tokens@.map_values(|t: PunktToken| t.model()),
            ),
            forall|k: int| 0 <= k < r@.len() ==> (#[trigger] r@[k]).wf(),
            forall|k: int|
                0 <= k < r@.len() ==> (#[trigger] r@[k]).token@ == tokens@[k].token@,
    {
        let mut out: Vec<PunktToken> = Vec::new();
        let mut i: usize = 0;
        while i < tokens.len()
            invariant
                self.wf(),
                i <= tokens@.len(),
                out@.len() == i,
                forall|k: int| 0 <= k < tokens@.len() ==> (#[trigger] tokens@[k]).wf(),
                forall|k: int| 0 <= k < out@.len() ==> (#[trigger] out@[k]).wf(),
                forall|k: int|
                    0 <= k < out@.len() ==> (#[trigger] out@[k]).model() == spec_first_pass(
                        self.se(),
                        self.params,
                        tokens@[k].model(),
                    ),
                forall|k: int|
                    0 <= k < out@.len() ==> (#[trigger] out@[k]).token@ == tokens@[k].token@,
            decreases tokens@.len() - i,
        {
            let mut t = tokens[i].clone();
            self._first_pass_annotation(&mut t);
            out.push(t);
            i += 1;
        }
        proof {
            let lhs = out@.map_values(|t: PunktToken| t.model());
            let rhs = spec_first_pass_all(
                self.se(),
                self.params,
                tokens@.map_values(|t: PunktToken| t.model()),
            );
            assert(lhs.len() == rhs.len());
            assert forall|k: int| 0 <= k < lhs.len() implies lhs[k] == rhs[k] by {
                assert(out@[k].model() == spec_first_pass(
                    self.se(),
                    self.params,
                    tokens@[k].model(),
                ));
            }
            assert(lhs =~= rhs);
        }
        out
    }

    /// The first, local classification of one token.
    pub fn _first_pass_annotation(&self, aug_tok: &mut PunktToken)
        requires
            self.wf(),
            old(aug_tok).wf(),
        ensures
            final(aug_tok).wf(),
            final(aug_tok).model() == spec_first_pass(
                self.se(),
                self.params,
                old(aug_tok).model(),
            ),
            final(aug_tok).token@ == old(aug_tok).token@,
    {
        let n = aug_tok.token.as_str().unicode_len();
        let is_single_sent_end = n == 1 && char_vec_contains(
            &self.lang_vars.punkt_language_static_vars.sent_end_chars,
            aug_tok.token.as_str().get_char(0),
        );
        if is_single_sent_end {
            aug_tok.sent_break = Some(true);
        } else if aug_tok.is_ellipsis() {
            aug_tok.ellipsis = Some(true);
        } else if aug_tok.period_final && !(n >= 2 && aug_tok.token.as_str().get_char(n - 2)
            == '.') {
            let stem_str = aug_tok.token.as_str().substring_char(0, n - 1);
            proof {
                assert(stem_str@ =~= old(aug_tok).token@.drop_last());
            }
            let stem = lowercase(stem_str);
            let suffix = hyphen_suffix_exec(stem.as_str());
            if self.params.contains_abbrev(stem.as_str()) || self.params.contains_abbrev(
                suffix.as_str(),
            ) {
                aug_tok.abbr = Some(true);
            } else {
                aug_tok.sent_break = Some(true);
            }
        }
    }
}

// ---------------------------------------------------------------------------
// Spans
// ---------------------------------------------------------------------------

/// A half-open `[start, end)` interval of character offsets into the input.
#[derive(Clone, Copy, Debug)]
pub struct Slice {
    pub start: usize,
    pub end: usize,
}

/// The length of the document once its leading whitespace is removed.
pub open spec fn trimmed_len(s: Seq<char>) -> int {
    s.len() - ws_run_end(s, 0)
}

/// Whether `[a, b)` can be realized on the input.
pub open spec fn slice_valid(s: Seq<char>, a: int, b: int) -> bool {
    0 <= a <= b <= s.len()
}

/// The candidate sentence spans of the document: each confirmed candidate
/// closes a span at its sentence-ending character, the next span opening at
/// the following token; one final span closes the document at its trimmed
/// length.
pub open spec fn spec_slices_from(
    se: Seq<char>,
    p: PunktParameters,
    s: Seq<char>,
    pos: int,
    lb: int,
) -> Seq<(int, int)>
    decreases s.len() - pos,
{
    match find_pc(se, s, pos) {
        None => seq![(lb, trimmed_len(s))],
        Some(m) => {
            let i = m.0;
            let e = m.1;
            let ae0 = pc_after_tok_end(se, s, e);
            let ae = if i <= ae0 <= s.len() {
                ae0
            } else {
                i
            };
            let ctx = s.subrange(i, ae);
            let newpos = if pos < e + 1 <= s.len() {
                e + 1
            } else {
                pos + 1
            };
            if spec_contains_sentbreak(se, p, ctx) {
                let nlb = match pc_next_tok_start(se, s, e) {
                    Some(w) => w,
                    None => e + 1,
                };
                seq![(lb, e + 1)] + spec_slices_from(se, p, s, newpos, nlb)
            } else {
                spec_slices_from(se, p, s, newpos, lb)
            }
        },
    }
}

/// The realignment pass from pair `idx` on, carrying the offset `ra` by which
/// the current span's start has already been moved: a span whose successor
/// opens with closing quotes absorbs them; unrealizable spans are omitted,
/// and so is a final span that would be empty.
pub open spec fn spec_realign_from(
    s: Seq<char>,
    spans: Seq<(int, int)>,
    idx: int,
    ra: int,
) -> Seq<(int, int)>
    decreases spans.len() - idx,
{
    if !(0 <= idx < spans.len()) {
        Seq::empty()
    } else {
        let s1 = (spans[idx].0 + ra, spans[idx].1);
        if idx == spans.len() - 1 {
            if slice_valid(s, s1.0, s1.1) && s1.0 < s1.1 {
                seq![s1]
            } else {
                Seq::empty()
            }
        } else {
            let s2 = spans[idx + 1];
            let sub = if slice_valid(s, s2.0, s2.1) {
                s.subrange(s2.0, s2.1)
            } else {
                Seq::empty()
            };
            match bmatch(sub) {
                Some(m) => seq![(s1.0, s2.0 + m.1)] + spec_realign_from(s, spans, idx + 1, m.0),
                None => (if slice_valid(s, s1.0, s1.1) {
                    seq![s1]
                } else {
                    Seq::empty()
                }) + spec_realign_from(s, spans, idx + 1, 0),
            }
        }
    }
}

/// The spans of the document, optionally realigned.
pub open spec fn spec_span_tokenize(
    se: Seq<char>,
    p: PunktParameters,
    s: Seq<char>,
    realign: bool,
) -> Seq<(int, int)> {
    let sl = spec_slices_from(se, p, s, 0, 0);
    if realign {
        spec_realign_from(s, sl, 0, 0)
    } else {
        sl
    }
}

/// The sentences of the document: each span realized on the input, an
/// unrealizable span giving the empty string.
pub open spec fn spec_sentences(
    se: Seq<char>,
    p: PunktParameters,
    s: Seq<char>,
    realign: bool,
) -> Seq<Seq<char>> {
    spec_span_tokenize(se, p, s, realign).map_values(
        |pr: (int, int)|
            if slice_valid(s, pr.0, pr.1) {
                s.subrange(pr.0, pr.1)
            } else {
                Seq::<char>::empty()
            },
    )
}

// ---------------------------------------------------------------------------
// The sentence tokenizer
// ---------------------------------------------------------------------------

/// The inference-time sentence tokenizer: a parameter bundle, language
/// variables, and the annotation and scanning stages over them.
pub struct PunktSentenceTokenizer {
    pub punkt_base_class: PunktBaseClass,
}

impl PunktSentenceTokenizer {
    /// The scanners agree with their tables.
    pub open spec fn wf(&self) -> bool {
        self.punkt_base_class.wf()
    }

    /// The configured sentence-ending characters.
    pub open spec fn se(&self) -> Seq<char> {
        self.punkt_base_class.se()
    }

    /// The learned parameters.
    pub open spec fn params(&self) -> PunktParameters {
        self.punkt_base_class.params
    }

    /// A tokenizer over the given parameter bundle, with the default language
    /// variables.
    pub fn new(params: PunktParameters) -> (r: PunktSentenceTokenizer)
        ensures
            r.wf(),
            r.params() == params,
            r.se() =~= seq!['.', '?', '!'],
    {
        PunktSentenceTokenizer { punkt_base_class: PunktBaseClass::new(None, Some(params)) }
    }

    /// Decides from orthographic evidence whether the token begins a
    /// sentence.
    pub fn _ortho_heuristic(&self, aug_tok: &PunktToken) -> (r: OrthoDecision)
        requires
            self.wf(),
            aug_tok.wf(),
            aug_tok.token@.len() > 0,
        ensures
            r == spec_ortho_heuristic(self.params(), aug_tok.model()),
    {
        let n = aug_tok.token.as_str().unicode_len();
        if n == 1 {
            let c = aug_tok.token.as_str().get_char(0);
            if c == ';' || c == ':' || c == ',' || c == '.' || c == '!' || c == '?' {
                return OrthoDecision::NoBreak;
            }
        }
        let tns = aug_tok.type_no_sent_period();
        let oc = self.punkt_base_class.params.get_ortho_context(tns.as_str());
        if aug_tok.first_upper() && (oc & ORTHO_LC) != 0 && (oc & ORTHO_MID_UC) == 0 {
            return OrthoDecision::Breaks;
        }
        if aug_tok.first_lower() && (oc & ORTHO_UC) != 0 && (oc & ORTHO_BEG_LC) == 0 {
            return OrthoDecision::NoBreak;
        }
        OrthoDecision::Unknown
    }

    /// The contextual reclassification of one token against its neighbour.
    pub fn _second_pass_annotation(
        &self,
        aug_tok1: &mut PunktToken,
        aug_tok2: Option<&PunktToken>,
    )
        requires
            self.wf(),
            old(aug_tok1).wf(),
            match aug_tok2 {
                Some(t) => t.wf() && t.token@.len() > 0,
                None => true,
            },
        ensures
            final(aug_tok1).wf(),
            final(aug_tok1).model() == spec_second_pass(
                self.params(),
                old(aug_tok1).model(),
                match aug_tok2 {
                    Some(t) => Some(t.model()),
                    None => None,
                },
            ),
    {
        let t2 = match aug_tok2 {
            Some(t) => t,
            None => {
                return ;
            },
        };
        if !aug_tok1.period_final {
            return ;
        }
        let typ = aug_tok1.type_no_period();
        let next_typ = t2.type_no_sent_period();
        let tok_is_initial = aug_tok1.is_initial();
        if self.punkt_base_class.params.contains_collocation(typ.as_str(), next_typ.as_str()) {
            aug_tok1.sent_break = Some(false);
            aug_tok1.abbr = Some(true);
            return ;
        }
        let abbr_flag = match aug_tok1.abbr {
            Some(true) => true,
            _ => false,
        };
        let ellipsis_flag = match aug_tok1.ellipsis {
            Some(true) => true,
            _ => false,
        };
        if (abbr_flag || ellipsis_flag) && !tok_is_initial {
            let is_sent_starter = self._ortho_heuristic(t2);
            match is_sent_starter {
                OrthoDecision::Breaks => {
                    aug_tok1.sent_break = Some(true);
                    return ;
                },
                _ => {},
            }
            if t2.first_upper() && self.punkt_base_class.params.contains_starter(
                next_typ.as_str(),
            ) {
                aug_tok1.sent_break = Some(true);
                return ;
            }
        }
        if tok_is_initial || str_eq(typ.as_str(), "##number##") {
            let is_sent_starter = self._ortho_heuristic(t2);
            match is_sent_starter {
                OrthoDecision::NoBreak => {
                    aug_tok1.sent_break = Some(false);
                    aug_tok1.abbr = Some(true);
                    return ;
                },
                OrthoDecision::Unknown => {
                    if tok_is_initial && t2.first_upper() {
                        let oc = self.punkt_base_class.params.get_ortho_context(
                            next_typ.as_str(),
                        );
                        if oc & ORTHO_LC == 0 {
                            aug_tok1.sent_break = Some(false);
                            aug_tok1.abbr = Some(true);
                            return ;
                        }
                    }
                },
                _ => {},
            }
        }
    }

    /// The second pass applied to every adjacent pair of tokens.
    pub fn _annotate_second_pass(&self, tokens: Vec<PunktToken>) -> (r: Vec<PunktToken>)
        requires
            self.wf(),
            forall|k: int| 0 <= k < tokens@.len() ==> (#[trigger] tokens@[k]).wf(),
            forall|k: int| 0 <= k < tokens@.len() ==> (#[trigger] tokens@[k]).token@.len() > 0,
        ensures
            r@.map_values(|t: PunktToken| t.model()) =~= spec_second_pass_all(
                self.params(),
                tokens@.map_values(|t: PunktToken| t.model()),
            ),
            forall|k: int| 0 <= k < r@.len() ==> (#[trigger] r@[k]).wf(),
    {
        let ghost models = tokens@.map_values(|t: PunktToken| t.model());
        let mut out: Vec<PunktToken> = Vec::new();
        let mut i: usize = 0;
        while i < tokens.len()
            invariant
                self.wf(),
                i <= tokens@.len(),
                out@.len() == i,
                models == tokens@.map_values(|t: PunktToken| t.model()),
                forall|k: int| 0 <= k < tokens@.len() ==> (#[trigger] tokens@[k]).wf(),
                forall|k: int|
                    0 <= k < tokens@.len() ==> (#[trigger] tokens@[k]).token@.len() > 0,
                forall|k: int| 0 <= k < out@.len() ==> (#[trigger] out@[k]).wf(),
                forall|k: int|
                    0 <= k < out@.len() ==> (#[trigger] out@[k]).model() == spec_second_pass(
                        self.params(),
                        models[k],
                        if k + 1 < models.len() {
                            Some(models[k + 1])
                        } else {
                            None
                        },
                    ),
            decreases tokens@.len() - i,
        {
            let mut t1 = tokens[i].clone();
            if i + 1 < tokens.len() {
                self._second_pass_annotation(&mut t1, Some(&tokens[i + 1]));
            } else {
                self._second_pass_annotation(&mut t1, None);
            }
            out.push(t1);
            i += 1;
        }
        proof {
            let lhs = out@.map_values(|t: PunktToken| t.model());
            let rhs = spec_second_pass_all(self.params(), models);
            assert(lhs.len() == rhs.len());
            assert forall|k: int| 0 <= k < lhs.len() implies lhs[k] == rhs[k] by {}
            assert(lhs =~= rhs);
        }
        out
    }

    /// Both annotation passes.
    pub fn _annotate_tokens(&self, tokens: Vec<PunktToken>) -> (r: Vec<PunktToken>)
        requires
            self.wf(),
            forall|k: int| 0 <= k < tokens@.len() ==> (#[trigger] tokens@[k]).wf(),
            forall|k: int| 0 <= k < tokens@.len() ==> (#[trigger] tokens@[k]).token@.len() > 0,
        ensures
            r@.map_values(|t: PunktToken| t.model()) =~= spec_second_pass_all(
                self.params(),
                spec_first_pass_all(
                    self.se(),
                    self.params(),
                    tokens@.map_values(|t: PunktToken| t.model()),
                ),
            ),
            forall|k: int| 0 <= k < r@.len() ==> (#[trigger] r@[k]).wf(),
    {
        let ghost models = tokens@.map_values(|t: PunktToken| t.model());
        let first = self.punkt_base_class._annotate_first_pass(tokens);
        proof {
            assert forall|k: int| 0 <= k < first@.len() implies (#[trigger] first@[k]).token@.len()
                > 0 by {
                assert(first@[k].token@ == tokens@[k].token@);
            }
        }
        self._annotate_second_pass(first)
    }

    /// Whether some non-final token of the fragment is a sentence break.
    pub fn text_contains_sentbreak(&self, text: &str) -> (r: bool)
        requires
            self.wf(),
        ensures
            r == spec_contains_sentbreak(self.se(), self.params(), text@),
    {
        let toks = self.punkt_base_class._tokenize_words(text);
        let anns = self._annotate_tokens(toks);
        let ghost models = anns@.map_values(|t: PunktToken| t.model());
        proof {
            assert(models =~= spec_annotated(self.se(), self.params(), text@));
        }
        let mut found = false;
        let mut i: usize = 0;
        while i < anns.len()
            invariant
                models == anns@.map_values(|t: PunktToken| t.model()),
                models =~= spec_annotated(self.se(), self.params(), text@),
                i <= anns@.len(),
                forall|k: int| 0 <= k < i - 1 ==> models[k].sent_break != Some(true),
                found == (i >= 1 && models[i - 1].sent_break == Some(true)),
            decreases anns@.len() - i,
        {
            if found {
                proof {
                    assert(0 <= i - 1 < models.len() - 1 && models[i - 1].sent_break == Some(
                        true,
                    ));
                }
                return true;
            }
            let brk = match anns[i].sent_break {
                Some(true) => true,
                _ => false,
            };
            if brk {
                found = true;
            }
            i += 1;
        }
        false
    }

    /// The candidate sentence spans of the document, before realignment.
    pub fn _slices_from_text(&self, text: &str) -> (r: Vec<Slice>)
        requires
            self.wf(),
        ensures
            r@.map_values(|sl: Slice| (sl.start as int, sl.end as int)) =~= spec_slices_from(
                self.se(),
                self.params(),
                text@,
                0,
                0,
            ),
    {
        let s = text;
        let n = s.unicode_len();
        let se = &self.punkt_base_class.lang_vars.punkt_language_pros.sent_end_chars;
        let mut out: Vec<Slice> = Vec::new();
        let mut pos: usize = 0;
        let mut lb: usize = 0;
        loop
            invariant
                self.wf(),
                se@ == self.se(),
                n == s@.len(),
                pos <= n,
                lb <= n,
                spec_slices_from(self.se(), self.params(), s@, 0, 0) =~= out@.map_values(
                    |sl: Slice| (sl.start as int, sl.end as int),
                ) + spec_slices_from(self.se(), self.params(), s@, pos as int, lb as int),
            ensures
                find_pc(self.se(), s@, pos as int) is None,
                lb <= n,
                spec_slices_from(self.se(), self.params(), s@, 0, 0) =~= out@.map_values(
                    |sl: Slice| (sl.start as int, sl.end as int),
                ) + spec_slices_from(self.se(), self.params(), s@, pos as int, lb as int),
            decreases n - pos,
        {
            let ghost pos0 = pos as int;
            let ghost lb0 = lb as int;
            let ghost out0 = out@;
            match find_pc_exec(se, s, pos) {
                None => {
                    break ;
                },
                Some(m) => {
                    let (mi, e) = m;
                    proof {
                        lemma_find_pc(self.se(), s@, pos as int);
                    }
                    let nonword_branch = e + 1 < n && non_word_exec(se, s.get_char(e + 1));
                    let mut ae: usize = 0;
                    let mut ntk: Option<usize> = None;
                    if nonword_branch {
                        ae = e + 2;
                        ntk = None;
                    } else {
                        let w = ws_run_end_exec(s, e + 1);
                        ae = nonws_run_end_exec(s, w);
                        ntk = Some(w);
                        proof {
                            lemma_ws_run(s@, e + 1);
                            lemma_nonws_run(s@, ws_run_end(s@, e + 1));
                        }
                    }
                    proof {
                        assert(ae == pc_after_tok_end(self.se(), s@, e as int));
                        assert(mi <= e < ae <= n);
                    }
                    let ctx = s.substring_char(mi, ae);
                    if self.text_contains_sentbreak(ctx) {
                        out.push(Slice { start: lb, end: e + 1 });
                        lb = match ntk {
                            Some(w) => w,
                            None => e + 1,
                        };
                    }
                    pos = e + 1;
                    proof {
                        let semodel = self.se();
                        let p = self.params();
                        assert(spec_slices_from(semodel, p, s@, pos0, lb0) == (
                        if spec_contains_sentbreak(semodel, p, ctx@) {
                            seq![(lb0, e + 1 as int)] + spec_slices_from(
                                semodel,
                                p,
                                s@,
                                pos as int,
                                lb as int,
                            )
                        } else {
                            spec_slices_from(semodel, p, s@, pos as int, lb as int)
                        }));
                        if spec_contains_sentbreak(semodel, p, ctx@) {
                            assert(out@.map_values(|sl: Slice| (sl.start as int, sl.end as int))
                                =~= out0.map_values(|sl: Slice| (sl.start as int, sl.end as int))
                                + seq![(lb0, e + 1 as int)]);
                        }
                    }
                },
            }
        }
        let trim_start_len = ws_run_end_exec(s, 0);
        let trim = n - trim_start_len;
        out.push(Slice { start: lb, end: trim });
        proof {
            assert(spec_slices_from(self.se(), self.params(), s@, pos as int, lb as int)
                =~= seq![(lb as int, trimmed_len(s@))]);
            assert(out@.map_values(|sl: Slice| (sl.start as int, sl.end as int))
                =~= out@.subrange(0, out@.len() - 1).map_values(
                |sl: Slice| (sl.start as int, sl.end as int),
            ).push((lb as int, trimmed_len(s@))));
        }
        out
    }

    /// Attaches trailing quotes and brackets of each following span to the
    /// preceding sentence.
    pub fn _realign_boundaries(&self, text: &str, slices: Vec<Slice>) -> (r: Vec<Slice>)
        ensures
            r@.map_values(|sl: Slice| (sl.start as int, sl.end as int)) =~= spec_realign_from(
                text@,
                slices@.map_values(|sl: Slice| (sl.start as int, sl.end as int)),
                0,
                0,
            ),
    {
        let n = text.unicode_len();
        let ghost spans = slices@.map_values(|sl: Slice| (sl.start as int, sl.end as int));
        let mut out: Vec<Slice> = Vec::new();
        let mut ra: usize = 0;
        let mut idx: usize = 0;
        while idx < slices.len()
            invariant
                n == text@.len(),
                idx <= slices@.len(),
                spans == slices@.map_values(|sl: Slice| (sl.start as int, sl.end as int)),
                idx < slices@.len() ==> (ra == 0 || (slices@[idx as int].start + ra
                    <= slices@[idx as int].end && slices@[idx as int].end <= n)),
                spec_realign_from(text@, spans, 0, 0) =~= out@.map_values(
                    |sl: Slice| (sl.start as int, sl.end as int),
                ) + spec_realign_from(text@, spans, idx as int, ra as int),
            decreases slices@.len() - idx,
        {
            let ghost out0 = out@;
            let ghost idx0 = idx as int;
            let ghost ra0 = ra as int;
            let sl = slices[idx];
            let s1_start = sl.start + ra;
            let s1_end = sl.end;
            proof {
                assert(spans[idx0] == (sl.start as int, sl.end as int));
            }
            if idx + 1 == slices.len() {
                if s1_start < s1_end && s1_end <= n {
                    out.push(Slice { start: s1_start, end: s1_end });
                    proof {
                        assert(out@.map_values(|x: Slice| (x.start as int, x.end as int))
                            =~= out0.map_values(|x: Slice| (x.start as int, x.end as int)) + seq![
                            (s1_start as int, s1_end as int),
                        ]);
                    }
                }
                idx += 1;
                proof {
                    assert(spec_realign_from(text@, spans, idx as int, ra as int)
                        =~= Seq::<(int, int)>::empty());
                }
            } else {
                let s2 = slices[idx + 1];
                proof {
                    assert(spans[idx0 + 1] == (s2.start as int, s2.end as int));
                }
                let sub = if s2.start <= s2.end && s2.end <= n {
                    text.substring_char(s2.start, s2.end)
                } else {
                    text.substring_char(0, 0)
                };
                proof {
                    if s2.start <= s2.end && s2.end <= n {
                        assert(sub@ == text@.subrange(s2.start as int, s2.end as int));
                    } else {
                        assert(sub@ =~= Seq::<char>::empty());
                    }
                }
                match bmatch_exec(sub) {
                    Some(m) => {
                        let (mend, k) = m;
                        proof {
                            assert(1 <= k <= mend <= sub@.len());
                            assert(s2.start <= s2.end && s2.end <= n);
                            assert(s2.start + k <= s2.end);
                        }
                        out.push(Slice { start: s1_start, end: s2.start + k });
                        ra = mend;
                        idx += 1;
                        proof {
                            assert(out@.map_values(|x: Slice| (x.start as int, x.end as int))
                                =~= out0.map_values(|x: Slice| (x.start as int, x.end as int))
                                + seq![(s1_start as int, s2.start + k as int)]);
                        }
                    },
                    None => {
                        if s1_start <= s1_end && s1_end <= n {
                            out.push(Slice { start: s1_start, end: s1_end });
                            proof {
                                assert(out@.map_values(|x: Slice| (x.start as int, x.end as int))
                                    =~= out0.map_values(|x: Slice| (x.start as int, x.end as int))
                                    + seq![(s1_start as int, s1_end as int)]);
                            }
                        }
                        ra = 0;
                        idx += 1;
                    },
                }
            }
        }
        out
    }

    /// The sentence spans of the document, optionally realigned.
    pub fn span_tokenize(&self, text: &str, realign_boundaries: bool) -> (r: Vec<(usize, usize)>)
        requires
            self.wf(),
        ensures
            r@.map_values(|pr: (usize, usize)| (pr.0 as int, pr.1 as int)) =~= spec_span_tokenize(
                self.se(),
                self.params(),
                text@,
                realign_boundaries,
            ),
    {
        let mut slices = self._slices_from_text(text);
        if realign_boundaries {
            slices = self._realign_boundaries(text, slices);
        }
        let ghost spans = slices@.map_values(|sl: Slice| (sl.start as int, sl.end as int));
        let mut out: Vec<(usize, usize)> = Vec::new();
        let mut i: usize = 0;
        while i < slices.len()
            invariant
                i <= slices@.len(),
                out@.len() == i,
                spans == slices@.map_values(|sl: Slice| (sl.start as int, sl.end as int)),
                forall|k: int|
                    0 <= k < i ==> (#[trigger] out@[k]) == (slices@[k].start, slices@[k].end),
            decreases slices@.len() - i,
        {
            out.push((slices[i].start, slices[i].end));
            i += 1;
        }
        proof {
            let lhs = out@.map_values(|pr: (usize, usize)| (pr.0 as int, pr.1 as int));
            assert(lhs.len() == spans.len());
            assert forall|k: int| 0 <= k < lhs.len() implies lhs[k] == spans[k] by {}
            assert(lhs =~= spans);
        }
        out
    }

    /// The sentences of the document: each span realized on the input.
    pub fn sentences_from_text(&self, text: &str, realign_boundaries: bool) -> (r: Vec<String>)
        requires
            self.wf(),
        ensures
            r@.map_values(|t: String| t@) =~= spec_sentences(
                self.se(),
                self.params(),
                text@,
                realign_boundaries,
            ),
    {
        let spans = self.span_tokenize(text, realign_boundaries);
        let ghost sps = spans@.map_values(|pr: (usize, usize)| (pr.0 as int, pr.1 as int));
        let n = text.unicode_len();
        let mut out: Vec<String> = Vec::new();
        let mut i: usize = 0;
        while i < spans.len()
            invariant
                n == text@.len(),
                i <= spans@.len(),
                out@.len() == i,
                sps == spans@.map_values(|pr: (usize, usize)| (pr.0 as int, pr.1 as int)),
                forall|k: int|
                    0 <= k < i ==> (#[trigger] out@[k])@ == (if slice_valid(
                        text@,
                        sps[k].0,
                        sps[k].1,
                    ) {
                        text@.subrange(sps[k].0, sps[k].1)
                    } else {
                        Seq::<char>::empty()
                    }),
            decreases spans@.len() - i,
        {
            let (a, b) = spans[i];
            match text.try_substring(a, b) {
                Some(ss) => {
                    out.push(String::from_str(ss));
                },
                None => {
                    out.push(String::new());
                },
            }
            i += 1;
        }
        proof {
            let lhs = out@.map_values(|t: String| t@);
            let rhs = spec_sentences(self.se(), self.params(), text@, realign_boundaries);
            assert(lhs.len() == rhs.len());
            assert forall|k: int| 0 <= k < lhs.len() implies lhs[k] == rhs[k] by {}
            assert(lhs =~= rhs);
        }
        out
    }

    /// The sentences of the document.
    pub fn tokenize(&self, text: &str, realign_boundaries: bool) -> (r: Vec<String>)
        requires
            self.wf(),
        ensures
            r@.map_values(|t: String| t@) =~= spec_sentences(
                self.se(),
                self.params(),
                text@,
                realign_boundaries,
            ),
    {
        self.sentences_from_text(text, realign_boundaries)
    }
}

} // verus!
