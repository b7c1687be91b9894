//! Quantified properties of the tokenizer, stated and proved against the
//! pipeline's specification functions.

use vstd::prelude::*;
use crate::chars::{is_ws_char, lower_of};
use crate::lang::{lemma_find_pc, lemma_ws_run, pc_next_tok_start, pc_qualifies, ws_run_end, bmatch};
use crate::params::PunktParameters;
use crate::token::{spec_is_initial, TokM};
use crate::tokenizer::{
    is_punct_tok, slice_valid, spec_first_pass, spec_ortho_heuristic, spec_realign_from,
    spec_second_pass, spec_sentences, spec_slices_from, spec_span_tokenize, trimmed_len,
    OrthoDecision,
};

verus! {

/// The tokenizer is a pure function of its parameters and input: two runs on
/// the same input give equal results, and no run changes the parameters,
/// which every operation takes by shared reference.
pub proof fn lemma_tokenize_pure(
    se: Seq<char>,
    p: PunktParameters,
    text: Seq<char>,
    realign: bool,
    r1: Seq<Seq<char>>,
    r2: Seq<Seq<char>>,
)
    requires
        r1 == spec_sentences(se, p, text, realign),
        r2 == spec_sentences(se, p, text, realign),
    ensures
        r1 == r2,
{
}

/// A known collocation across a period suppresses the sentence break: after
/// the second pass the token is explicitly no break.
pub proof fn lemma_collocation_override(p: PunktParameters, t1: TokM, t2: TokM)
    requires
        t1.period_final(),
        p.spec_has_collocation(t1.type_no_period(), t2.type_no_sent_period()),
    ensures
        spec_second_pass(p, t1, Some(t2)).sent_break == Some(false),
        spec_second_pass(p, t1, Some(t2)).abbr == Some(true),
{
}

/// For tokens that are not bare punctuation, the orthographic heuristic
/// depends only on the case of the first character and on the stored flags
/// of the token's type: equivalent inputs give equal answers.
pub proof fn lemma_ortho_heuristic_law(p: PunktParameters, t1: TokM, t2: TokM)
    requires
        !is_punct_tok(t1.surface),
        !is_punct_tok(t2.surface),
        p.spec_ortho(t1.type_no_sent_period()) == p.spec_ortho(t2.type_no_sent_period()),
        t1.first_upper() == t2.first_upper(),
        t1.first_lower() == t2.first_lower(),
    ensures
        spec_ortho_heuristic(p, t1) == spec_ortho_heuristic(p, t2),
{
}

/// A token whose lower-cased stem is a known abbreviation is not marked as a
/// sentence break by the first pass (unless its whole surface is a single
/// sentence-ending character), and the second pass can mark it only through
/// the orthographic rescue or the sentence-starter rescue.
pub proof fn lemma_known_abbreviation_stability(
    se: Seq<char>,
    p: PunktParameters,
    t: TokM,
    next: Option<TokM>,
)
    requires
        p.spec_has_abbrev(lower_of(t.surface.drop_last())),
        !(t.surface.len() == 1 && se.contains(t.surface[0])),
        t.sent_break is None,
    ensures
        spec_first_pass(se, p, t).sent_break != Some(true),
        spec_second_pass(p, spec_first_pass(se, p, t), next).sent_break == Some(true)
            ==> match next {
            Some(u) => {
                let t1 = spec_first_pass(se, p, t);
                &&& (t1.abbr == Some(true) || t1.ellipsis == Some(true))
                &&& !spec_is_initial(t.surface)
                &&& (spec_ortho_heuristic(p, u) == OrthoDecision::Breaks || (u.first_upper()
                    && p.spec_has_starter(u.type_no_sent_period())))
            },
            None => false,
        },
{
}

/// Helper induction for coverage monotonicity: starting a scan at `pos` with
/// the last break at `lb` (separated from `pos` only by whitespace), every
/// emitted span fits the document, starts at or after `lb`, the first span
/// starts exactly at `lb`, and starts never decrease.
proof fn lemma_slices_mono(se: Seq<char>, p: PunktParameters, s: Seq<char>, pos: int, lb: int)
    requires
        0 <= pos,
        0 <= lb <= s.len(),
        trimmed_len(s) == s.len(),
        forall|c: char| se.contains(c) ==> !is_ws_char(c),
        lb <= pos || (forall|k: int| pos <= k < lb ==> is_ws_char(s[k])),
    ensures
        spec_slices_from(se, p, s, pos, lb).len() >= 1,
        spec_slices_from(se, p, s, pos, lb)[0].0 == lb,
        forall|k: int|
            0 <= k < spec_slices_from(se, p, s, pos, lb).len() ==> {
                let sp = #[trigger] spec_slices_from(se, p, s, pos, lb)[k];
                lb <= sp.0 <= sp.1 <= s.len()
            },
        forall|k: int|
            0 <= k < spec_slices_from(se, p, s, pos, lb).len() - 1
                ==> #[trigger] spec_slices_from(se, p, s, pos, lb)[k].0 <= spec_slices_from(
                se,
                p,
                s,
                pos,
                lb,
            )[k + 1].0,
    decreases s.len() - pos,
{
    let r = spec_slices_from(se, p, s, pos, lb);
    match crate::lang::find_pc(se, s, pos) {
        None => {
            assert(r =~= seq![(lb, trimmed_len(s))]);
        },
        Some(m) => {
            lemma_find_pc(se, s, pos);
            let e = m.1;
            assert(pc_qualifies(se, s, e));
            assert(!is_ws_char(s[e]));
            if lb > pos {
                if e < lb {
                    assert(is_ws_char(s[e]));
                    assert(false);
                }
            }
            assert(lb <= e);
            let newpos = if pos < e + 1 <= s.len() {
                e + 1
            } else {
                pos + 1
            };
            assert(newpos == e + 1);
            let ae0 = crate::lang::pc_after_tok_end(se, s, e);
            let ae = if m.0 <= ae0 <= s.len() {
                ae0
            } else {
                m.0
            };
            let ctx = s.subrange(m.0, ae);
            if crate::tokenizer::spec_contains_sentbreak(se, p, ctx) {
                let nlb = match pc_next_tok_start(se, s, e) {
                    Some(w) => w,
                    None => e + 1,
                };
                if pc_next_tok_start(se, s, e) is Some {
                    lemma_ws_run(s, e + 1);
                    assert(nlb == ws_run_end(s, e + 1));
                }
                assert(e + 1 <= nlb <= s.len());
                lemma_slices_mono(se, p, s, newpos, nlb);
                let rest = spec_slices_from(se, p, s, newpos, nlb);
                assert(r =~= seq![(lb, e + 1)] + rest);
                assert forall|k: int| 0 <= k < r.len() implies {
                    let sp = #[trigger] r[k];
                    lb <= sp.0 <= sp.1 <= s.len()
                } by {
                    if k == 0 {
                        assert(r[0] == (lb, e + 1));
                    } else {
                        assert(r[k] == rest[k - 1]);
                        assert(nlb <= rest[k - 1].0);
                    }
                }
                assert forall|k: int| 0 <= k < r.len() - 1 implies #[trigger] r[k].0 <= r[k
                    + 1].0 by {
                    if k == 0 {
                        assert(r[1] == rest[0]);
                        assert(rest[0].0 == nlb);
                    } else {
                        assert(r[k] == rest[k - 1]);
                        assert(r[k + 1] == rest[k]);
                    }
                }
            } else {
                lemma_slices_mono(se, p, s, newpos, lb);
                assert(r =~= spec_slices_from(se, p, s, newpos, lb));
            }
        },
    }
}

/// Coverage monotonicity: for a document without leading whitespace and a
/// sentence-end set free of whitespace, the raw spans have non-decreasing
/// starts and every span's end is at or after its start (and within the
/// document).
pub proof fn lemma_coverage_monotonic(se: Seq<char>, p: PunktParameters, s: Seq<char>)
    requires
        s.len() == 0 || !is_ws_char(s[0]),
        forall|c: char| se.contains(c) ==> !is_ws_char(c),
    ensures
        forall|k: int|
            0 <= k < spec_span_tokenize(se, p, s, false).len() ==> {
                let sp = #[trigger] spec_span_tokenize(se, p, s, false)[k];
                0 <= sp.0 <= sp.1 <= s.len()
            },
        forall|k: int|
            0 <= k < spec_span_tokenize(se, p, s, false).len() - 1
                ==> #[trigger] spec_span_tokenize(se, p, s, false)[k].0 <= spec_span_tokenize(
                se,
                p,
                s,
                false,
            )[k + 1].0,
{
    assert(ws_run_end(s, 0) == 0);
    lemma_slices_mono(se, p, s, 0, 0);
    assert(spec_span_tokenize(se, p, s, false) == spec_slices_from(se, p, s, 0, 0));
}

/// Helper for realignment idempotence: when every remaining span is
/// realizable, no following span opens with a realignment match, and the last
/// span is non-empty, the pass returns the spans unchanged.
proof fn lemma_realign_identity(s: Seq<char>, spans: Seq<(int, int)>, idx: int)
    requires
        0 <= idx <= spans.len(),
        forall|k: int|
            idx <= k < spans.len() ==> slice_valid(
                s,
                (#[trigger] spans[k]).0,
                spans[k].1,
            ),
        forall|k: int|
            idx < k < spans.len() ==> bmatch(
                s.subrange((#[trigger] spans[k]).0, spans[k].1),
            ) is None,
        idx < spans.len() ==> spans[spans.len() - 1].0 < spans[spans.len() - 1].1,
    ensures
        spec_realign_from(s, spans, idx, 0) =~= spans.skip(idx),
    decreases spans.len() - idx,
{
    if idx < spans.len() {
        if idx == spans.len() - 1 {
            assert(spec_realign_from(s, spans, idx, 0) =~= seq![spans[idx as int]]);
        } else {
            lemma_realign_identity(s, spans, idx + 1);
            assert(bmatch(s.subrange(spans[idx + 1].0, spans[idx + 1].1)) is None);
            assert(spec_realign_from(s, spans, idx, 0) =~= seq![spans[idx as int]]
                + spec_realign_from(s, spans, idx + 1, 0));
        }
    }
}

/// Realignment idempotence: spans that have already been realigned, are all
/// realizable, end in a non-empty span, and offer no further realignment
/// match are returned unchanged by a second pass.
pub proof fn lemma_realignment_idempotent(s: Seq<char>, spans: Seq<(int, int)>)
    requires
        forall|k: int|
            0 <= k < spec_realign_from(s, spans, 0, 0).len() ==> slice_valid(
                s,
                (#[trigger] spec_realign_from(s, spans, 0, 0)[k]).0,
                spec_realign_from(s, spans, 0, 0)[k].1,
            ),
        forall|k: int|
            0 < k < spec_realign_from(s, spans, 0, 0).len() ==> bmatch(
                s.subrange(
                    (#[trigger] spec_realign_from(s, spans, 0, 0)[k]).0,
                    spec_realign_from(s, spans, 0, 0)[k].1,
                ),
            ) is None,
        spec_realign_from(s, spans, 0, 0).len() > 0 ==> spec_realign_from(s, spans, 0, 0)[
            spec_realign_from(s, spans, 0, 0).len() - 1
        ].0 < spec_realign_from(s, spans, 0, 0)[spec_realign_from(s, spans, 0, 0).len() - 1].1,
    ensures
        spec_realign_from(s, spec_realign_from(s, spans, 0, 0), 0, 0) =~= spec_realign_from(
            s,
            spans,
            0,
            0,
        ),
{
    lemma_realign_identity(s, spec_realign_from(s, spans, 0, 0), 0);
    assert(spec_realign_from(s, spans, 0, 0).skip(0) =~= spec_realign_from(s, spans, 0, 0));
}

} // verus!
