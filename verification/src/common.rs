//! Languages for which pre-trained parameter bundles are published.

use vstd::prelude::*;

verus! {

#[derive(Debug, Clone, Copy, Eq, PartialEq, Hash, Structural)]
pub enum Language {
    Czech,
    Danish,
    Dutch,
    English,
    Estonian,
    Finnish,
    French,
    German,
    Greek,
    Italian,
    Norwegian,
    Polish,
    Portuguese,
    Slovenian,
    Spanish,
    Swedish,
    Turkish,
}

/// The English name of the language, which is also how it is spelled in text.
pub open spec fn language_name(l: Language) -> Seq<char> {
    match l {
        Language::Czech => "Czech"@,
        Language::Danish => "Danish"@,
        Language::Dutch => "Dutch"@,
        Language::English => "English"@,
        Language::Estonian => "Estonian"@,
        Language::Finnish => "Finnish"@,
        Language::French => "French"@,
        Language::German => "German"@,
        Language::Greek => "Greek"@,
        Language::Italian => "Italian"@,
        Language::Norwegian => "Norwegian"@,
        Language::Polish => "Polish"@,
        Language::Portuguese => "Portuguese"@,
        Language::Slovenian => "Slovenian"@,
        Language::Spanish => "Spanish"@,
        Language::Swedish => "Swedish"@,
        Language::Turkish => "Turkish"@,
    }
}

/// The ISO 639-1 code of the language.
pub open spec fn language_iso_code(l: Language) -> Seq<char> {
    match l {
        Language::Czech => "cs"@,
        Language::Danish => "da"@,
        Language::Dutch => "nl"@,
        Language::English => "en"@,
        Language::Estonian => "et"@,
        Language::Finnish => "fi"@,
        Language::French => "fr"@,
        Language::German => "de"@,
        Language::Greek => "el"@,
        Language::Italian => "it"@,
        Language::Norwegian => "no"@,
        Language::Polish => "pl"@,
        Language::Portuguese => "pt"@,
        Language::Slovenian => "sl"@,
        Language::Spanish => "es"@,
        Language::Swedish => "sv"@,
        Language::Turkish => "tr"@,
    }
}

impl Language {
    /// Parses the English name of a language; any other input is rejected.
    pub fn from_str(input: &str) -> (r: Result<Language, ()>)
        ensures
            r matches Ok(l) ==> language_name(l) == input@,
            r is Err ==> forall|l: Language| language_name(l) != input@,
    {
        if crate::strutil::str_eq(input, "Czech") {
            Ok(Language::Czech)
        } else if crate::strutil::str_eq(input, "Danish") {
            Ok(Language::Danish)
        } else if crate::strutil::str_eq(input, "Dutch") {
            Ok(Language::Dutch)
        } else if crate::strutil::str_eq(input, "English") {
            Ok(Language::English)
        } else if crate::strutil::str_eq(input, "Estonian") {
            Ok(Language::Estonian)
        } else if crate::strutil::str_eq(input, "Finnish") {
            Ok(Language::Finnish)
        } else if crate::strutil::str_eq(input, "French") {
            Ok(Language::French)
        } else if crate::strutil::str_eq(input, "German") {
            Ok(Language::German)
        } else if crate::strutil::str_eq(input, "Greek") {
            Ok(Language::Greek)
        } else if crate::strutil::str_eq(input, "Italian") {
            Ok(Language::Italian)
        } else if crate::strutil::str_eq(input, "Norwegian") {
            Ok(Language::Norwegian)
        } else if crate::strutil::str_eq(input, "Polish") {
            Ok(Language::Polish)
        } else if crate::strutil::str_eq(input, "Portuguese") {
            Ok(Language::Portuguese)
        } else if crate::strutil::str_eq(input, "Slovenian") {
            Ok(Language::Slovenian)
        } else if crate::strutil::str_eq(input, "Spanish") {
            Ok(Language::Spanish)
        } else if crate::strutil::str_eq(input, "Swedish") {
            Ok(Language::Swedish)
        } else if crate::strutil::str_eq(input, "Turkish") {
            Ok(Language::Turkish)
        } else {
            proof {
                assert forall|l: Language| language_name(l) != input@ by {
                }
            }
            Err(())
        }
    }

    /// The language's name as displayed to a user.
    pub fn display_name(&self) -> (r: String)
        ensures
            r@ == language_name(*self),
    {
        match self {
            Language::Czech => String::from_str("Czech"),
            Language::Danish => String::from_str("Danish"),
            Language::Dutch => String::from_str("Dutch"),
            Language::English => String::from_str("English"),
            Language::Estonian => String::from_str("Estonian"),
            Language::Finnish => String::from_str("Finnish"),
            Language::French => String::from_str("French"),
            Language::German => String::from_str("German"),
            Language::Greek => String::from_str("Greek"),
            Language::Italian => String::from_str("Italian"),
            Language::Norwegian => String::from_str("Norwegian"),
            Language::Polish => String::from_str("Polish"),
            Language::Portuguese => String::from_str("Portuguese"),
            Language::Slovenian => String::from_str("Slovenian"),
            Language::Spanish => String::from_str("Spanish"),
            Language::Swedish => String::from_str("Swedish"),
            Language::Turkish => String::from_str("Turkish"),
        }
    }

    /// The ISO 639-1 code of the language.
    pub fn get_iso_639_1_code(&self) -> (r: &'static str)
        ensures
            r@ == language_iso_code(*self),
    {
        match self {
            Language::Czech => "cs",
            Language::Danish => "da",
            Language::Dutch => "nl",
            Language::English => "en",
            Language::Estonian => "et",
            Language::Finnish => "fi",
            Language::French => "fr",
            Language::German => "de",
            Language::Greek => "el",
            Language::Italian => "it",
            Language::Norwegian => "no",
            Language::Polish => "pl",
            Language::Portuguese => "pt",
            Language::Slovenian => "sl",
            Language::Spanish => "es",
            Language::Swedish => "sv",
            Language::Turkish => "tr",
        }
    }
}

} // verus!
