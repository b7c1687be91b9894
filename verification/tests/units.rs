//! Unit tests of the tokenizer's building blocks.

use sentence_splitter::common::Language;
use sentence_splitter::errors::SentenceSplitterError;
use sentence_splitter::params::PunktParameters;
use sentence_splitter::resources::RemoteResource;
use sentence_splitter::slice::{range_to_begin_end, StringSlice};
use sentence_splitter::lang::PunktLanguageVars;
use sentence_splitter::token::PunktToken;
use sentence_splitter::tokenizer::{OrthoDecision, PunktBaseClass, PunktSentenceTokenizer};

#[test]
fn language_from_str_round_trip() {
    assert_eq!(Language::from_str("English"), Ok(Language::English));
    assert_eq!(Language::from_str("Turkish"), Ok(Language::Turkish));
    assert_eq!(Language::from_str("Klingon"), Err(()));
}

#[test]
fn language_iso_codes() {
    assert_eq!(Language::English.get_iso_639_1_code(), "en");
    assert_eq!(Language::Czech.get_iso_639_1_code(), "cs");
    assert_eq!(Language::Norwegian.get_iso_639_1_code(), "no");
}

#[test]
fn language_display_name() {
    assert_eq!(Language::Portuguese.display_name(), "Portuguese");
}

#[test]
fn error_messages() {
    let e = SentenceSplitterError::FileDownloadError(String::from("host down"));
    assert_eq!(e.message(), "Endpoint not available error: host down");
    let e = SentenceSplitterError::IOError(String::from("missing file"));
    assert_eq!(e.message(), "IO error: missing file");
}

#[test]
fn remote_resource_new() {
    let r = RemoteResource::new("https://example.com/model.json", "punkt");
    assert_eq!(r.url, "https://example.com/model.json");
    assert_eq!(r.cache_subdir, "punkt");
}

#[test]
fn range_bounds() {
    assert_eq!(range_to_begin_end(2..7), (2, 7));
}

#[test]
fn try_substring_behaviour() {
    assert_eq!("hello".try_substring(1, 3), Some("el"));
    assert_eq!("hello".try_substring(3, 1), None);
    assert_eq!("hello".try_substring(2, 9), None);
    assert_eq!("hello".try_slice(0..5), Some("hello"));
}

#[test]
fn token_type_is_case_folded() {
    let t = PunktToken::new("Dr.", false, false);
    assert_eq!(t.type_, "dr.");
    assert!(t.period_final);
}

#[test]
fn numeric_surfaces_share_one_type() {
    assert_eq!(PunktToken::new("3", false, false).type_, "##number##");
    assert_eq!(PunktToken::new("-1,234.5.", false, false).type_, "##number##");
    assert_eq!(PunktToken::new("3a", false, false).type_, "3a");
    let t = PunktToken {
        token: String::from("##number##s"),
        ..PunktToken::new("##number##s", false, false)
    };
    assert!(t.is_number());
    assert!(!PunktToken::new("word", false, false).is_number());
}

#[test]
fn ellipsis_and_initial_detection() {
    assert!(PunktToken::new("...", false, false).is_ellipsis());
    assert!(PunktToken::new("..", false, false).is_ellipsis());
    assert!(!PunktToken::new(".", false, false).is_ellipsis());
    assert!(!PunktToken::new("a.b", false, false).is_ellipsis());
    assert!(PunktToken::new("J.", false, false).is_initial());
    assert!(!PunktToken::new("3.", false, false).is_initial());
    assert!(!PunktToken::new("Jo.", false, false).is_initial());
}

#[test]
fn first_case_is_corrected() {
    assert_eq!(PunktToken::new("apple", false, false).first_case(), "lower");
    assert_eq!(PunktToken::new("Apple", false, false).first_case(), "upper");
    assert_eq!(PunktToken::new("1apple", false, false).first_case(), "none");
    assert!(PunktToken::new("Apple", false, false).first_upper());
    assert!(PunktToken::new("apple", false, false).first_lower());
}

#[test]
fn type_no_period_strips_one_period() {
    let t = PunktToken::new("etc.", false, false);
    assert_eq!(t.type_no_period(), "etc");
    let t = PunktToken::new(".", false, false);
    assert_eq!(t.type_no_period(), ".");
}

#[test]
fn ortho_heuristic_depends_on_case_and_flags_only() {
    let tok = PunktSentenceTokenizer::new(PunktParameters::new());
    // Both types are absent from the ortho map, so both answers must agree:
    // the heuristic reads only the first character's case and the flags.
    let a = tok._ortho_heuristic(&PunktToken::new("Foo", false, false));
    let b = tok._ortho_heuristic(&PunktToken::new("Bar", false, false));
    assert_eq!(a, b);
    assert_eq!(a, OrthoDecision::Unknown);
    let c = tok._ortho_heuristic(&PunktToken::new(";", false, false));
    assert_eq!(c, OrthoDecision::NoBreak);
}

#[test]
fn word_tokenize_splits_punctuation() {
    let lv = PunktLanguageVars::new();
    let toks = lv.word_tokenize(String::from("Wait... (really?)"));
    assert_eq!(toks, vec!["Wait", "...", "(", "really", "?", ")"]);
}

#[test]
fn contains_sentbreak_ignores_last_token() {
    let tok = PunktSentenceTokenizer::new(PunktParameters::new());
    assert!(tok.text_contains_sentbreak("One. Two"));
    assert!(!tok.text_contains_sentbreak("One."));
    assert!(!tok.text_contains_sentbreak(""));
}

#[test]
fn word_tokenize_dashes_and_spaced_ellipsis() {
    let lv = PunktLanguageVars::new();
    assert_eq!(
        lv.word_tokenize(String::from("well--maybe")),
        vec!["well", "--", "maybe"]
    );
    assert_eq!(
        lv.word_tokenize(String::from("a . . . b")),
        vec!["a", ". . .", "b"]
    );
    assert_eq!(lv.word_tokenize(String::from("a, b")), vec!["a", ",", "b"]);
    assert_eq!(lv.word_tokenize(String::from("a,b")), vec!["a,b"]);
}

#[test]
fn sentences_may_span_line_breaks() {
    let tok = PunktSentenceTokenizer::new(PunktParameters::new());
    let sentences = tok.tokenize("He left. She\nstayed.", true);
    assert_eq!(sentences, vec!["He left.", "She\nstayed."]);
}

#[test]
fn leading_whitespace_truncates_tail() {
    // The final span closes at the length of the document with its leading
    // whitespace removed, so leading whitespace shortens the tail span.
    let tok = PunktSentenceTokenizer::new(PunktParameters::new());
    let sentences = tok.tokenize("  Hi. Yes.", true);
    assert_eq!(sentences, vec!["  Hi.", "Ye"]);
}

#[test]
fn custom_sentence_end_characters() {
    let lv = PunktLanguageVars::with_sent_end_chars(vec!['.', '!']);
    let base = PunktBaseClass::new(Some(lv), Some(PunktParameters::new()));
    let tok = PunktSentenceTokenizer { punkt_base_class: base };
    // With '?' no longer a sentence ender, the question mark cannot close a
    // sentence.
    let sentences = tok.tokenize("Really? Yes! Fine.", true);
    assert_eq!(sentences, vec!["Really? Yes!", "Fine."]);
}
