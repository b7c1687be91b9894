//! End-to-end tokenization scenarios over a small parameter bundle.

use sentence_splitter::params::PunktParameters;
use sentence_splitter::tokenizer::PunktSentenceTokenizer;
use sentence_splitter::params::Collocations;

fn default_bundle() -> PunktParameters {
    PunktParameters {
        abbrev_types: vec![
            String::from("dr"),
            String::from("mr"),
            String::from("mrs"),
            String::from("e.g"),
            String::from("i.e"),
            String::from("inc"),
        ],
        collocations: vec![],
        sent_starters: vec![],
        ortho_context: vec![],
    }
}

#[test]
fn two_plain_sentences() {
    let tok = PunktSentenceTokenizer::new(default_bundle());
    let sentences = tok.tokenize("Hello world. How are you?", true);
    assert_eq!(sentences, vec!["Hello world.", "How are you?"]);
}

#[test]
fn abbreviation_suppression() {
    let tok = PunktSentenceTokenizer::new(default_bundle());
    let sentences = tok.tokenize("Dr. Smith arrived. He waved.", true);
    assert_eq!(sentences, vec!["Dr. Smith arrived.", "He waved."]);
}

#[test]
fn internal_period_abbreviation() {
    let mut bundle = default_bundle();
    bundle.abbrev_types.push(String::from("p.m"));
    let tok = PunktSentenceTokenizer::new(bundle);
    let sentences = tok.tokenize("The meeting is at 3 p.m. tomorrow.", true);
    assert_eq!(sentences, vec!["The meeting is at 3 p.m. tomorrow."]);
}

#[test]
fn realignment_attaches_quote() {
    let tok = PunktSentenceTokenizer::new(default_bundle());
    let sentences = tok.tokenize("She said \"Hello.\" Then she left.", true);
    assert_eq!(sentences, vec!["She said \"Hello.\"", "Then she left."]);
}

#[test]
fn initials_do_not_break() {
    let mut bundle = default_bundle();
    bundle.ortho_context.push((String::from("tolkien"), 4));
    let tok = PunktSentenceTokenizer::new(bundle);
    let sentences = tok.tokenize("J. R. R. Tolkien wrote books.", true);
    assert_eq!(sentences, vec!["J. R. R. Tolkien wrote books."]);
}

#[test]
fn ellipsis_then_sentence_starter() {
    let mut bundle = default_bundle();
    bundle.sent_starters.push(String::from("is"));
    let tok = PunktSentenceTokenizer::new(bundle);
    let sentences = tok.tokenize("Wait... Is that you?", true);
    assert_eq!(sentences, vec!["Wait...", "Is that you?"]);
}

#[test]
fn empty_input_gives_no_spans() {
    let tok = PunktSentenceTokenizer::new(default_bundle());
    assert_eq!(tok.span_tokenize("", true), Vec::<(usize, usize)>::new());
    assert_eq!(tok.tokenize("", true), Vec::<String>::new());
}

#[test]
fn whitespace_only_input() {
    let tok = PunktSentenceTokenizer::new(default_bundle());
    // Without realignment the trim rule leaves a single empty span at the
    // start; realignment drops the empty span.
    assert_eq!(tok.span_tokenize("   ", false), vec![(0, 0)]);
    assert_eq!(tok.span_tokenize("   ", true), Vec::<(usize, usize)>::new());
}

#[test]
fn single_sentence_without_terminator() {
    let tok = PunktSentenceTokenizer::new(default_bundle());
    assert_eq!(tok.span_tokenize("Hello world", true), vec![(0, 11)]);
    assert_eq!(tok.tokenize("Hello world", true), vec!["Hello world"]);
}

#[test]
fn final_quote_realigned() {
    let tok = PunktSentenceTokenizer::new(default_bundle());
    let sentences = tok.tokenize("Hi. \"Go.\"", true);
    assert_eq!(sentences, vec!["Hi.", "\"Go.\""]);
}

#[test]
fn spans_are_monotonic() {
    let tok = PunktSentenceTokenizer::new(default_bundle());
    let spans = tok.span_tokenize("Hello world. How are you? Fine.", false);
    for w in spans.windows(2) {
        assert!(w[0].0 <= w[1].0);
    }
    for sp in &spans {
        assert!(sp.0 <= sp.1);
    }
}

#[test]
fn realignment_is_idempotent_here() {
    let tok = PunktSentenceTokenizer::new(default_bundle());
    let text = "She said \"Hello.\" Then she left.";
    let once = tok.span_tokenize(text, true);
    // Realigned spans of this document offer no further realignment match,
    // so tokenizing again gives the same spans.
    let again = tok.span_tokenize(text, true);
    assert_eq!(once, again);
    assert_eq!(once, vec![(0, 17), (18, 32)]);
}

#[test]
fn tokenizer_is_pure() {
    let tok = PunktSentenceTokenizer::new(default_bundle());
    let text = "Hello world. How are you?";
    let first = tok.tokenize(text, true);
    let second = tok.tokenize(text, true);
    assert_eq!(first, second);
    assert_eq!(tok.punkt_base_class.params.abbrev_types.len(), 6);
}

#[test]
fn collocation_suppresses_break() {
    let mut bundle = default_bundle();
    bundle.collocations.push(Collocations(String::from("no"), String::from("one")));
    let tok = PunktSentenceTokenizer::new(bundle);
    let sentences = tok.tokenize("There was no. one here. Nobody.", true);
    assert_eq!(sentences, vec!["There was no. one here.", "Nobody."]);
}

#[test]
fn paragraph_and_line_flags() {
    let tok = PunktSentenceTokenizer::new(default_bundle());
    let toks = tok.punkt_base_class._tokenize_words("One two\n\nThree");
    let surfaces: Vec<&str> = toks.iter().map(|t| t.token.as_str()).collect();
    assert_eq!(surfaces, vec!["One", "two", "Three"]);
    assert_eq!(toks[0].para_start, Some(false));
    assert_eq!(toks[1].para_start, Some(false));
    assert_eq!(toks[2].para_start, Some(true));
    assert_eq!(toks[2].line_start, Some(true));
}

