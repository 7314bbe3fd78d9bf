//! String interning: each distinct string gets a small id, the position at
//! which it was first interned.

use vstd::prelude::*;
use vstd::string::StringExecFns;

use crate::text::str_eq;

verus! {

/// Simple interner for strings used throughout the model (e.g., tensor
/// names); the id of a string is its position.
#[derive(Debug)]
pub struct InternedStrings {
    strings: Vec<String>,
}

/// Whether no text occurs twice.
pub open spec fn no_duplicates(v: Seq<Seq<char>>) -> bool {
    forall|i: int, j: int| 0 <= i < j < v.len() ==> v[i] != v[j]
}

/// The first position, from `i` on, that holds `s`.
pub open spec fn position_from(v: Seq<Seq<char>>, s: Seq<char>, i: int) -> Option<nat>
    decreases v.len() - i,
{
    if i < 0 || i >= v.len() {
        None
    } else if v[i] == s {
        Some(i as nat)
    } else {
        position_from(v, s, i + 1)
    }
}

/// Interning `s` into the texts `v`: the texts after, and the id of `s` —
/// its existing position, or the end when it is new.
pub open spec fn spec_intern(v: Seq<Seq<char>>, s: Seq<char>) -> (Seq<Seq<char>>, nat) {
    match position_from(v, s, 0) {
        Some(i) => (v, i),
        None => (v.push(s), v.len()),
    }
}

/// The position found holds the text and no earlier one does; when none is
/// found no position holds it.
pub proof fn lemma_position_from(v: Seq<Seq<char>>, s: Seq<char>, i: int)
    requires
        0 <= i,
    ensures
        position_from(v, s, i) matches Some(k) ==> i <= k < v.len() && v[k as int] == s
            && forall|j: int| i <= j < k ==> v[j] != s,
        position_from(v, s, i) is None ==> forall|j: int| i <= j < v.len() ==> v[j] != s,
    decreases v.len() - i,
{
    if i < v.len() && v[i] != s {
        lemma_position_from(v, s, i + 1);
    }
}

impl InternedStrings {
    #[verifier::type_invariant]
    spec fn inv(&self) -> bool {
        no_duplicates(self.texts())
    }

    /// The interned texts, indexed by id.
    pub closed spec fn texts(&self) -> Seq<Seq<char>> {
        self.strings@.map_values(|s: String| s@)
    }

    /// An empty interner.
    pub fn new() -> (res: Self)
        ensures
            res.texts() == Seq::<Seq<char>>::empty(),
    {
        let res = InternedStrings { strings: Vec::new() };
        assert(res.texts() =~= Seq::<Seq<char>>::empty());
        res
    }

    /// Intern a string, returning its unique ID: the id it already has, or
    /// the next id when it is new.
    pub fn intern(&mut self, s: &str) -> (res: usize)
        ensures
            (final(self).texts(), res as nat) == spec_intern(old(self).texts(), s@),
    {
        proof { use_type_invariant(&*self); }
        let ghost v = self.texts();
        let mut i: usize = 0;
        while i < self.strings.len()
            invariant
                v == self.texts(),
                v.len() == self.strings@.len(),
                i <= v.len(),
                position_from(v, s@, 0) == position_from(v, s@, i as int),
            decreases v.len() - i,
        {
            proof {
                assert(v[i as int] == self.strings@[i as int]@);
            }
            if str_eq(self.strings[i].as_str(), s) {
                return i;
            }
            i = i + 1;
        }
        proof {
            lemma_position_from(v, s@, 0);
        }
        let id = self.strings.len();
        let mut strings: Vec<String> = Vec::new();
        std::mem::swap(&mut strings, &mut self.strings);
        strings.push(String::from_str(s));
        proof {
            let w = strings@.map_values(|t: String| t@);
            assert(w =~= v.push(s@));
            assert(no_duplicates(w));
        }
        self.strings = strings;
        id
    }

    /// The id of an interned string, found by comparing the texts in id
    /// order.
    pub fn position(&self, s: &str) -> (res: Option<usize>)
        ensures
            match position_from(self.texts(), s@, 0) {
                Some(i) => res == Some(i as usize),
                None => res is None,
            },
    {
        let ghost v = self.texts();
        let mut i: usize = 0;
        while i < self.strings.len()
            invariant
                v == self.texts(),
                v.len() == self.strings@.len(),
                i <= v.len(),
                position_from(v, s@, 0) == position_from(v, s@, i as int),
            decreases v.len() - i,
        {
            proof {
                assert(v[i as int] == self.strings@[i as int]@);
            }
            if str_eq(self.strings[i].as_str(), s) {
                return Some(i);
            }
            i = i + 1;
        }
        None
    }

    /// Retrieve a string by its ID.
    pub fn get(&self, id: usize) -> (res: Option<&str>)
        ensures
            id < self.texts().len() ==> (res matches Some(t) && t@ == self.texts()[id as int]),
            id >= self.texts().len() ==> res is None,
    {
        if id < self.strings.len() {
            Some(self.strings[id].as_str())
        } else {
            None
        }
    }
}

impl Default for InternedStrings {
    fn default() -> (res: Self)
        ensures
            res.texts() == Seq::<Seq<char>>::empty(),
    {
        Self::new()
    }
}

/// Interning keeps the interned texts free of duplicates, keeps the id of
/// every earlier text, and gives `s` an id under which it is then found.
pub proof fn law_intern_then_get(v: Seq<Seq<char>>, s: Seq<char>)
    requires
        no_duplicates(v),
    ensures
        ({
            let (w, id) = spec_intern(v, s);
            &&& id < w.len()
            &&& w[id as int] == s
            &&& no_duplicates(w)
            &&& w.len() >= v.len()
            &&& forall|i: int| 0 <= i < v.len() ==> w[i] == v[i]
        }),
{
    lemma_position_from(v, s, 0);
}

/// Interning the same string twice gives the same id and changes nothing the
/// second time.
pub proof fn law_intern_idempotent(v: Seq<Seq<char>>, s: Seq<char>)
    requires
        no_duplicates(v),
    ensures
        ({
            let (w, id) = spec_intern(v, s);
            spec_intern(w, s) == (w, id)
        }),
{
    lemma_position_from(v, s, 0);
    let (w, id) = spec_intern(v, s);
    lemma_position_from(w, s, 0);
    law_intern_then_get(v, s);
    if let Some(k) = position_from(w, s, 0) {
        if k != id {
            assert(w[k as int] == w[id as int]);
        }
    }
}

} // verus!
