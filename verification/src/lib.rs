//! Sentence boundary detection with the Punkt algorithm.
//!
//! The tokenizer decides, for each sentence-ending punctuation mark in a
//! document, whether it closes a sentence or belongs to an abbreviation,
//! ordinal, initial or ellipsis.  The decision is driven by a pre-trained
//! parameter bundle (abbreviations, collocations, sentence starters and
//! orthographic context) that is read-only at inference time.

pub mod chars;
pub mod common;
pub mod errors;
pub mod lang;
pub mod laws;
pub mod params;
pub mod resources;
pub mod slice;
pub mod strutil;
pub mod token;
pub mod tokenizer;

pub use common::Language;
pub use errors::SentenceSplitterError;
pub use lang::{PunktLanguagePros, PunktLanguageStaticVars, PunktLanguageVars};
pub use params::{Collocations, PunktParameters};
pub use resources::{LocalResource, RemoteResource, Resource};
pub use slice::{range_to_begin_end, StringSlice};
pub use token::PunktToken;
pub use tokenizer::{PunktBaseClass, PunktSentenceTokenizer, Slice};
