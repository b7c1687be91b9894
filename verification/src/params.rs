//! The learned parameter bundle consumed at inference time.
//!
//! Four read-only collections drive the tokenizer: known abbreviation types,
//! collocations seen to span a period, frequent sentence starters, and the
//! orthographic context accumulated per type.  Lookups are specified over the
//! character sequences of the stored strings; the orthographic map is kept as
//! a key-value vector looked up by first match.

use vstd::prelude::*;
use vstd::pervasive::VecAdditionalExecFns;
use crate::strutil::{seq_has_str, str_eq, vec_has_str};

verus! {

/// Orthographic-context flag: the type was seen upper-case at a sentence beginning.
pub const ORTHO_BEG_UC: usize = 2;

/// Orthographic-context flag: the type was seen upper-case mid-sentence.
pub const ORTHO_MID_UC: usize = 4;

/// Orthographic-context flag: the type was seen upper-case in an unknown position.
pub const ORTHO_UNK_UC: usize = 8;

/// Orthographic-context flag: the type was seen lower-case at a sentence beginning.
pub const ORTHO_BEG_LC: usize = 16;

/// Orthographic-context flag: the type was seen lower-case mid-sentence.
pub const ORTHO_MID_LC: usize = 32;

/// Orthographic-context flag: the type was seen lower-case in an unknown position.
pub const ORTHO_UNK_LC: usize = 64;

/// Mask of the three upper-case orthographic flags.
pub const ORTHO_UC: usize = 14;

/// Mask of the three lower-case orthographic flags.
pub const ORTHO_LC: usize = 112;

/// An ordered pair of types known to co-occur across a period without a
/// sentence break.
#[derive(Debug)]
pub struct Collocations(pub String, pub String);

impl PartialEq for Collocations {
    fn eq(&self, other: &Self) -> (r: bool) {
        str_eq(self.0.as_str(), other.0.as_str()) && str_eq(self.1.as_str(), other.1.as_str())
    }
}

impl vstd::std_specs::cmp::PartialEqSpecImpl for Collocations {
    open spec fn obeys_eq_spec() -> bool {
        true
    }

    open spec fn eq_spec(&self, other: &Self) -> bool {
        self.0@ == other.0@ && self.1@ == other.1@
    }
}

impl Clone for Collocations {
    fn clone(&self) -> (r: Self)
        ensures
            r.0@ == self.0@,
            r.1@ == self.1@,
    {
        Collocations(self.0.clone(), self.1.clone())
    }
}

/// First-match lookup of `key` among the `(type, flags)` entries, starting at
/// position `i`; absent keys map to 0.
pub open spec fn ortho_lookup_from(entries: Seq<(String, usize)>, i: int, key: Seq<char>) -> usize
    decreases entries.len() - i,
{
    if !(0 <= i < entries.len()) {
        0
    } else if entries[i].0@ == key {
        entries[i].1
    } else {
        ortho_lookup_from(entries, i + 1, key)
    }
}

/// Whether some entry stores `key`.
pub open spec fn has_ortho_key(entries: Seq<(String, usize)>, key: Seq<char>) -> bool {
    exists|i: int| 0 <= i < entries.len() && entries[i].0@ == key
}

/// The learned model: all collections are read-only during tokenization.
pub struct PunktParameters {
    /// Lower-cased word types (without their trailing period) known to be
    /// abbreviations.
    pub abbrev_types: Vec<String>,
    /// Ordered type pairs seen to span a period without a sentence break.
    pub collocations: Vec<Collocations>,
    /// Lower-cased types that frequently begin a sentence.
    pub sent_starters: Vec<String>,
    /// Per-type orthographic evidence, a bit-or of the `ORTHO_*` flags.
    pub ortho_context: Vec<(String, usize)>,
}

impl PunktParameters {
    /// Whether `s` is a known abbreviation type.
    pub open spec fn spec_has_abbrev(&self, s: Seq<char>) -> bool {
        seq_has_str(self.abbrev_types@, s)
    }

    /// Whether the ordered pair `(a, b)` is a known collocation.
    pub open spec fn spec_has_collocation(&self, a: Seq<char>, b: Seq<char>) -> bool {
        exists|i: int|
            0 <= i < self.collocations@.len() && self.collocations@[i].0@ == a
                && self.collocations@[i].1@ == b
    }

    /// Whether `s` is a known sentence starter.
    pub open spec fn spec_has_starter(&self, s: Seq<char>) -> bool {
        seq_has_str(self.sent_starters@, s)
    }

    /// The orthographic flags stored for `key`, 0 when absent.
    pub open spec fn spec_ortho(&self, key: Seq<char>) -> usize {
        ortho_lookup_from(self.ortho_context@, 0, key)
    }

    /// An empty bundle.
    pub fn new() -> (r: PunktParameters)
        ensures
            r.abbrev_types@.len() == 0,
            r.collocations@.len() == 0,
            r.sent_starters@.len() == 0,
            r.ortho_context@.len() == 0,
    {
        PunktParameters {
            abbrev_types: Vec::new(),
            collocations: Vec::new(),
            sent_starters: Vec::new(),
            ortho_context: Vec::new(),
        }
    }

    /// Removes every known abbreviation.
    pub fn clear_abbrevs(&mut self)
        ensures
            final(self).abbrev_types@.len() == 0,
            final(self).collocations == old(self).collocations,
            final(self).sent_starters == old(self).sent_starters,
            final(self).ortho_context == old(self).ortho_context,
    {
        self.abbrev_types.clear()
    }

    /// Removes every known collocation.
    pub fn clear_collocations(&mut self)
        ensures
            final(self).collocations@.len() == 0,
            final(self).abbrev_types == old(self).abbrev_types,
            final(self).sent_starters == old(self).sent_starters,
            final(self).ortho_context == old(self).ortho_context,
    {
        self.collocations.clear()
    }

    /// Removes every known sentence starter.
    pub fn clear_sent_starters(&mut self)
        ensures
            final(self).sent_starters@.len() == 0,
            final(self).abbrev_types == old(self).abbrev_types,
            final(self).collocations == old(self).collocations,
            final(self).ortho_context == old(self).ortho_context,
    {
        self.sent_starters.clear()
    }

    /// Removes every orthographic entry.
    pub fn clear_ortho_context(&mut self)
        ensures
            final(self).ortho_context@.len() == 0,
            final(self).abbrev_types == old(self).abbrev_types,
            final(self).collocations == old(self).collocations,
            final(self).sent_starters == old(self).sent_starters,
    {
        self.ortho_context.clear()
    }

    /// Whether `s` is a known abbreviation type.
    pub fn contains_abbrev(&self, s: &str) -> (r: bool)
        ensures
            r == self.spec_has_abbrev(s@),
    {
        vec_has_str(&self.abbrev_types, s)
    }

    /// Whether the ordered pair `(a, b)` is a known collocation.
    pub fn contains_collocation(&self, a: &str, b: &str) -> (r: bool)
        ensures
            r == self.spec_has_collocation(a@, b@),
    {
        let mut i: usize = 0;
        while i < self.collocations.len()
            invariant
                i <= self.collocations@.len(),
                forall|k: int|
                    0 <= k < i ==> !(self.collocations@[k].0@ == a@ && self.collocations@[k].1@
                        == b@),
            decreases self.collocations@.len() - i,
        {
            if str_eq(self.collocations[i].0.as_str(), a) && str_eq(
                self.collocations[i].1.as_str(),
                b,
            ) {
                return true;
            }
            i += 1;
        }
        false
    }

    /// Whether `s` is a known sentence starter.
    pub fn contains_starter(&self, s: &str) -> (r: bool)
        ensures
            r == self.spec_has_starter(s@),
    {
        vec_has_str(&self.sent_starters, s)
    }

    /// The orthographic flags stored for `key`, 0 when absent.
    pub fn get_ortho_context(&self, key: &str) -> (r: usize)
        ensures
            r == self.spec_ortho(key@),
    {
        let mut i: usize = 0;
        while i < self.ortho_context.len()
            invariant
                i <= self.ortho_context@.len(),
                ortho_lookup_from(self.ortho_context@, i as int, key@) == self.spec_ortho(key@),
            decreases self.ortho_context@.len() - i,
        {
            if str_eq(self.ortho_context[i].0.as_str(), key) {
                return self.ortho_context[i].1;
            }
            i += 1;
        }
        0
    }

    /// Merges `flag` into the orthographic entry of `typ`, creating the entry
    /// when it is new.  Entries of other types keep their flags.
    pub fn add_ortho_context(&mut self, typ: &str, flag: usize)
        ensures
            final(self).abbrev_types == old(self).abbrev_types,
            final(self).collocations == old(self).collocations,
            final(self).sent_starters == old(self).sent_starters,
            final(self).spec_ortho(typ@) == (flag | old(self).spec_ortho(typ@)),
            forall|k: Seq<char>|
                k != typ@ ==> final(self).spec_ortho(k) == old(self).spec_ortho(k),
            final(self).ortho_context@.len() == old(self).ortho_context@.len() + (
            if has_ortho_key(old(self).ortho_context@, typ@) {
                0int
            } else {
                1int
            }),
    {
        let ghost entries0 = self.ortho_context@;
        let mut i: usize = 0;
        while i < self.ortho_context.len()
            invariant
                self.abbrev_types == old(self).abbrev_types,
                self.collocations == old(self).collocations,
                self.sent_starters == old(self).sent_starters,
                self.ortho_context@ == entries0,
                entries0 == old(self).ortho_context@,
                i <= entries0.len(),
                forall|k: int| 0 <= k < i ==> entries0[k].0@ != typ@,
            decreases entries0.len() - i,
        {
            if str_eq(self.ortho_context[i].0.as_str(), typ) {
                let merged = flag | self.ortho_context[i].1;
                self.ortho_context.set(i, (String::from_str(typ), merged));
                proof {
                    lemma_lookup_skip_prefix(entries0, 0, i as int, typ@);
                    lemma_lookup_skip_prefix(self.ortho_context@, 0, i as int, typ@);
                    assert forall|k: Seq<char>| k != typ@ implies ortho_lookup_from(
                        self.ortho_context@,
                        0,
                        k,
                    ) == ortho_lookup_from(entries0, 0, k) by {
                        lemma_lookup_congruent(self.ortho_context@, entries0, 0, k, typ@);
                    }
                    assert(has_ortho_key(entries0, typ@));
                }
                return ;
            }
            i += 1;
        }
        self.ortho_context.push((String::from_str(typ), flag));
        proof {
            let pushed = self.ortho_context@;
            lemma_lookup_skip_prefix(pushed, 0, entries0.len() as int, typ@);
            lemma_lookup_skip_prefix(entries0, 0, entries0.len() as int, typ@);
            assert(ortho_lookup_from(entries0, entries0.len() as int, typ@) == 0);
            assert(flag | 0 == flag) by (bit_vector);
            let x = pushed[entries0.len() as int];
            assert forall|k: Seq<char>| k != typ@ implies ortho_lookup_from(pushed, 0, k)
                == ortho_lookup_from(entries0, 0, k) by {
                lemma_lookup_push_other(entries0, x, 0, k);
            }
            assert(!has_ortho_key(entries0, typ@));
        }
    }
}

/// Skipping entries whose key is not `key` does not change the lookup.
proof fn lemma_lookup_skip_prefix(e: Seq<(String, usize)>, j: int, i: int, key: Seq<char>)
    requires
        0 <= j <= i <= e.len(),
        forall|m: int| j <= m < i ==> e[m].0@ != key,
    ensures
        ortho_lookup_from(e, j, key) == ortho_lookup_from(e, i, key),
    decreases i - j,
{
    if j < i {
        lemma_lookup_skip_prefix(e, j + 1, i, key);
    }
}

/// Two entry vectors that agree except on entries keyed `other` give the same
/// lookup for every key but `other`.
proof fn lemma_lookup_congruent(
    a: Seq<(String, usize)>,
    b: Seq<(String, usize)>,
    j: int,
    key: Seq<char>,
    other: Seq<char>,
)
    requires
        a.len() == b.len(),
        key != other,
        0 <= j,
        forall|m: int| 0 <= m < a.len() ==> a[m] == b[m] || (a[m].0@ == other && b[m].0@ == other),
    ensures
        ortho_lookup_from(a, j, key) == ortho_lookup_from(b, j, key),
    decreases a.len() - j,
{
    if j < a.len() {
        lemma_lookup_congruent(a, b, j + 1, key, other);
    }
}

/// Pushing an entry with a different key does not change the lookup.
proof fn lemma_lookup_push_other(
    e: Seq<(String, usize)>,
    x: (String, usize),
    j: int,
    key: Seq<char>,
)
    requires
        0 <= j,
        x.0@ != key,
    ensures
        ortho_lookup_from(e.push(x), j, key) == ortho_lookup_from(e, j, key),
    decreases e.len() + 1 - j,
{
    if j < e.len() + 1 {
        lemma_lookup_push_other(e, x, j + 1, key);
    }
}

} // verus!
