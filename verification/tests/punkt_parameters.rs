use sentence_splitter::params::{Collocations, PunktParameters};
use sentence_splitter::lang::PunktLanguageVars;

pub fn get_static_data() -> PunktParameters {
    PunktParameters {
        abbrev_types: vec![String::from("ok"), String::from("a.g"), String::from("a.m")],
        collocations: vec![
            Collocations(String::from("b"), String::from("wigton")),
            Collocations(String::from("o"), String::from("ludcke")),
        ],
        sent_starters: vec![
            String::from("since"),
            String::from("among"),
            String::from("they"),
        ],
        ortho_context: vec![
            (String::from("a"), 126),
            (String::from("a&m"), 4),
            (String::from("a-%"), 32),
        ],
    }
}

#[test]
fn test() {
    let string = String::from(
        "A last thing to note about key sentences is that academic readers expect them to be at the beginning of the paragraph",
    );
    let sec = PunktLanguageVars::new();
    let data = sec.word_tokenize(string);
    println!("{:?}", data);
}

#[test]
fn test_new_obj() {
    let pp = PunktParameters::new();

    assert_eq!(pp.abbrev_types.len(), 0);
    assert_eq!(pp.collocations.len(), 0);
    assert_eq!(pp.sent_starters.len(), 0);
    assert_eq!(pp.ortho_context.len(), 0);
}

#[test]
fn test_clear_abbrevs() {
    let mut from_struct: PunktParameters = get_static_data();
    from_struct.clear_abbrevs();

    assert_eq!(from_struct.abbrev_types.len(), 0);
}

#[test]
fn test_clear_collocations() {
    let mut from_struct: PunktParameters = get_static_data();
    from_struct.clear_collocations();

    assert_eq!(from_struct.collocations.len(), 0);
}

#[test]
fn test_clear_sent_starters() {
    let mut from_struct: PunktParameters = get_static_data();
    from_struct.clear_sent_starters();

    assert_eq!(from_struct.sent_starters.len(), 0);
}

#[test]
fn test_clear_ortho_context() {
    let mut from_struct: PunktParameters = get_static_data();
    from_struct.clear_ortho_context();

    assert_eq!(from_struct.ortho_context.len(), 0);
}

#[test]
fn test_ortho_context() {
    let mut from_struct: PunktParameters = get_static_data();
    let value = from_struct.get_ortho_context("a");

    assert_eq!(value, 126);
    assert_eq!(from_struct.ortho_context.len(), 3);

    from_struct.add_ortho_context("a", 250);
    from_struct.add_ortho_context("hello", 100);

    assert_eq!(from_struct.get_ortho_context("a"), 254);
    assert_eq!(from_struct.ortho_context.len(), 4);
}
