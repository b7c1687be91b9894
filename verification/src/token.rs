//! Annotated tokens.
//!
//! Each word-level token carries its surface form, its case-folded type, and
//! three tri-valued classification flags (`sent_break`, `abbr`, `ellipsis`)
//! that the annotation passes fill in.  A flag is `None` until a pass decides
//! it; the explicit `Some(false)` state ("known not to be a break") matters to
//! the second pass and must not be collapsed into `None`.

use vstd::prelude::*;
use crate::chars::{
    char_is_lowercase, char_is_numeric, char_is_uppercase, char_is_alphabetic, is_alpha_char,
    is_digit_char, is_lower_char, is_upper_char, lower_of, lowercase,
};

verus! {

/// The literal type that stands in for every numeric surface.
pub open spec fn number_typ() -> Seq<char> {
    "##number##"@
}

/// Whether a (case-folded) surface is numeric: an optional minus sign, an
/// optional leading period or comma, one digit, then only digits, commas,
/// periods and hyphens.
pub open spec fn spec_is_number(s: Seq<char>) -> bool {
    let i0: int = if s.len() > 0 && s[0] == '-' {
        1
    } else {
        0
    };
    let i1: int = if s.len() > i0 && (s[i0] == '.' || s[i0] == ',') {
        i0 + 1
    } else {
        i0
    };
    &&& s.len() > i1
    &&& is_digit_char(s[i1])
    &&& forall|j: int|
        i1 < j < s.len() ==> is_digit_char(s[j]) || s[j] == ',' || s[j] == '.' || s[j] == '-'
}

/// Whether a surface is an ellipsis: two or more periods and nothing else.
pub open spec fn spec_is_ellipsis(s: Seq<char>) -> bool {
    s.len() >= 2 && forall|j: int| 0 <= j < s.len() ==> s[j] == '.'
}

/// Whether a surface is an initial: one word character that is not a digit,
/// followed by a period.
pub open spec fn spec_is_initial(s: Seq<char>) -> bool {
    s.len() == 2 && (is_alpha_char(s[0]) || s[0] == '_') && !is_digit_char(s[0]) && s[1] == '.'
}

/// Whether a surface ends with a period.
pub open spec fn spec_period_final(s: Seq<char>) -> bool {
    s.len() > 0 && s[s.len() - 1] == '.'
}

/// The type of a surface: its case folding, with numeric surfaces replaced by
/// the number type.
pub open spec fn typ_of(s: Seq<char>) -> Seq<char> {
    if spec_is_number(lower_of(s)) {
        number_typ()
    } else {
        lower_of(s)
    }
}

/// A type with one trailing period removed, when longer than one character.
pub open spec fn type_no_period_of(typ: Seq<char>) -> Seq<char> {
    if typ.len() > 1 && typ[typ.len() - 1] == '.' {
        typ.drop_last()
    } else {
        typ
    }
}

/// The mathematical model of an annotated token.
pub ghost struct TokM {
    pub surface: Seq<char>,
    pub para_start: Option<bool>,
    pub line_start: Option<bool>,
    pub sent_break: Option<bool>,
    pub abbr: Option<bool>,
    pub ellipsis: Option<bool>,
}

impl TokM {
    /// The token's type.
    pub open spec fn typ(self) -> Seq<char> {
        typ_of(self.surface)
    }

    /// The token's type with one trailing period removed.
    pub open spec fn type_no_period(self) -> Seq<char> {
        type_no_period_of(self.typ())
    }

    /// The type, with the trailing period removed when the token is marked as
    /// a sentence break.
    pub open spec fn type_no_sent_period(self) -> Seq<char> {
        if self.sent_break == Some(true) {
            self.type_no_period()
        } else {
            self.typ()
        }
    }

    /// Whether the surface begins upper-case.
    pub open spec fn first_upper(self) -> bool {
        self.surface.len() > 0 && is_upper_char(self.surface[0])
    }

    /// Whether the surface begins lower-case.
    pub open spec fn first_lower(self) -> bool {
        self.surface.len() > 0 && is_lower_char(self.surface[0])
    }

    /// Whether the surface ends with a period.
    pub open spec fn period_final(self) -> bool {
        spec_period_final(self.surface)
    }
}

/// A word-level token with its classification flags.
#[derive(Debug)]
pub struct PunktToken {
    pub token: String,
    pub type_: String,
    pub period_final: bool,
    pub para_start: Option<bool>,
    pub line_start: Option<bool>,
    pub sent_break: Option<bool>,
    pub abbr: Option<bool>,
    pub ellipsis: Option<bool>,
}

impl PunktToken {
    /// The model of this token.
    pub open spec fn model(&self) -> TokM {
        TokM {
            surface: self.token@,
            para_start: self.para_start,
            line_start: self.line_start,
            sent_break: self.sent_break,
            abbr: self.abbr,
            ellipsis: self.ellipsis,
        }
    }

    /// The derived fields agree with the surface.
    pub open spec fn wf(&self) -> bool {
        self.type_@ == typ_of(self.token@) && self.period_final == spec_period_final(self.token@)
    }

    /// Builds a token from its surface and provenance flags; the
    /// classification flags start unset.
    pub fn new(token: &str, para_start: bool, line_start: bool) -> (r: PunktToken)
        ensures
            r.wf(),
            r.model() == (TokM {
                surface: token@,
                para_start: Some(para_start),
                line_start: Some(line_start),
                sent_break: None,
                abbr: None,
                ellipsis: None,
            }),
    {
        let n = token.unicode_len();
        let period_final = n > 0 && token.get_char(n - 1) == '.';
        PunktToken {
            token: String::from_str(token),
            type_: Self::get_type(token),
            period_final,
            para_start: Some(para_start),
            line_start: Some(line_start),
            sent_break: None,
            abbr: None,
            ellipsis: None,
        }
    }

    /// The case-folded type of a surface, with numeric surfaces replaced by
    /// the number type.
    pub fn get_type(tok: &str) -> (r: String)
        ensures
            r@ == typ_of(tok@),
    {
        let low = lowercase(tok);
        if is_number_str(low.as_str()) {
            String::from_str("##number##")
        } else {
            low
        }
    }

    /// The type with one trailing period removed, when longer than one
    /// character.
    pub fn type_no_period(&self) -> (r: String)
        ensures
            r@ == type_no_period_of(self.type_@),
    {
        let n = self.type_.as_str().unicode_len();
        if n > 1 && self.type_.as_str().get_char(n - 1) == '.' {
            let s = self.type_.as_str().substring_char(0, n - 1);
            proof {
                assert(s@ =~= self.type_@.drop_last());
            }
            String::from_str(s)
        } else {
            self.type_.clone()
        }
    }

    /// The type, with the trailing period removed when this token is marked
    /// as a sentence break.
    pub fn type_no_sent_period(&self) -> (r: String)
        ensures
            r@ == (if self.sent_break == Some(true) {
                type_no_period_of(self.type_@)
            } else {
                self.type_@
            }),
    {
        match self.sent_break {
            Some(true) => self.type_no_period(),
            _ => self.type_.clone(),
        }
    }

    /// Whether the surface begins upper-case.
    pub fn first_upper(&self) -> (r: bool)
        requires
            self.token@.len() > 0,
        ensures
            r == is_upper_char(self.token@[0]),
    {
        char_is_uppercase(self.token.as_str().get_char(0))
    }

    /// Whether the surface begins lower-case.
    pub fn first_lower(&self) -> (r: bool)
        requires
            self.token@.len() > 0,
        ensures
            r == is_lower_char(self.token@[0]),
    {
        char_is_lowercase(self.token.as_str().get_char(0))
    }

    /// The case of the first character: `"lower"`, `"upper"` or `"none"`.
    pub fn first_case(&self) -> (r: &'static str)
        requires
            self.token@.len() > 0,
        ensures
            is_lower_char(self.token@[0]) ==> r@ == "lower"@,
            !is_lower_char(self.token@[0]) && is_upper_char(self.token@[0]) ==> r@ == "upper"@,
            !is_lower_char(self.token@[0]) && !is_upper_char(self.token@[0]) ==> r@ == "none"@,
    {
        if self.first_lower() {
            "lower"
        } else if self.first_upper() {
            "upper"
        } else {
            "none"
        }
    }

    /// Whether the surface is an ellipsis.
    pub fn is_ellipsis(&self) -> (r: bool)
        ensures
            r == spec_is_ellipsis(self.token@),
    {
        let s = self.token.as_str();
        let n = s.unicode_len();
        if n < 2 {
            return false;
        }
        let mut j: usize = 0;
        while j < n
            invariant
                s@ == self.token@,
                n == s@.len(),
                j <= n,
                forall|k: int| 0 <= k < j ==> s@[k] == '.',
            decreases n - j,
        {
            if s.get_char(j) != '.' {
                proof {
                    assert(self.token@[j as int] != '.');
                }
                return false;
            }
            j += 1;
        }
        true
    }

    /// Whether the surface starts with the number type.
    pub fn is_number(&self) -> (r: bool)
        ensures
            r == (self.token@.len() >= number_typ().len() && self.token@.subrange(
                0,
                number_typ().len() as int,
            ) == number_typ()),
    {
        let pat = "##number##";
        proof {
            reveal_strlit("##number##");
        }
        let s = self.token.as_str();
        let n = s.unicode_len();
        let m = pat.unicode_len();
        if n < m {
            return false;
        }
        let mut j: usize = 0;
        while j < m
            invariant
                s@ == self.token@,
                pat@ == number_typ(),
                n == s@.len(),
                m == pat@.len(),
                m <= n,
                j <= m,
                forall|k: int| 0 <= k < j ==> s@[k] == pat@[k],
            decreases m - j,
        {
            if s.get_char(j) != pat.get_char(j) {
                proof {
                    assert(pat@ == number_typ());
                    assert(self.token@.subrange(0, number_typ().len() as int)[j as int]
                        != number_typ()[j as int]);
                }
                return false;
            }
            j += 1;
        }
        proof {
            assert(s@.subrange(0, m as int) =~= pat@);
        }
        true
    }

    /// Whether the surface is an initial.
    pub fn is_initial(&self) -> (r: bool)
        ensures
            r == spec_is_initial(self.token@),
    {
        let s = self.token.as_str();
        let n = s.unicode_len();
        if n != 2 {
            return false;
        }
        let c0 = s.get_char(0);
        let c1 = s.get_char(1);
        (char_is_alphabetic(c0) || c0 == '_') && !char_is_numeric(c0) && c1 == '.'
    }
}

impl Clone for PunktToken {
    fn clone(&self) -> (r: Self)
        ensures
            r == *self,
    {
        PunktToken {
            token: self.token.clone(),
            type_: self.type_.clone(),
            period_final: self.period_final,
            para_start: self.para_start,
            line_start: self.line_start,
            sent_break: self.sent_break,
            abbr: self.abbr,
            ellipsis: self.ellipsis,
        }
    }
}

/// Whether a (case-folded) surface is numeric.
pub fn is_number_str(s: &str) -> (r: bool)
    ensures
        r == spec_is_number(s@),
{
    let n = s.unicode_len();
    let i0: usize = if n > 0 && s.get_char(0) == '-' {
        1
    } else {
        0
    };
    let mut i1: usize = i0;
    if n > i0 {
        let c = s.get_char(i0);
        if c == '.' || c == ',' {
            i1 = i0 + 1;
        }
    }
    if n <= i1 {
        return false;
    }
    if !char_is_numeric(s.get_char(i1)) {
        return false;
    }
    let mut j: usize = i1 + 1;
    while j < n
        invariant
            n == s@.len(),
            i1 < j <= n,
            forall|k: int|
                i1 < k < j ==> is_digit_char(s@[k]) || s@[k] == ',' || s@[k] == '.' || s@[k] == '-',
        decreases n - j,
    {
        let c = s.get_char(j);
        if !(char_is_numeric(c) || c == ',' || c == '.' || c == '-') {
            return false;
        }
        j += 1;
    }
    true
}

} // verus!
