//! The values that stand in for a template's placeholders.

use vstd::prelude::*;
use crate::misc::assoc::{assoc_map, lemma_assoc_lookup, lemma_assoc_push, lemma_assoc_update};
use crate::misc::text::same_text;

verus! {

/// A table from placeholder name to replacement text, with at most one
/// entry per name.
pub struct Replacements {
    entries: Vec<(String, String)>,
}

impl View for Replacements {
    type V = Map<Seq<char>, Seq<char>>;

    closed spec fn view(&self) -> Map<Seq<char>, Seq<char>> {
        assoc_map(self.names(), self.values())
    }
}

spec fn names_of(entries: Seq<(String, String)>) -> Seq<Seq<char>> {
    Seq::new(entries.len(), |i: int| entries[i].0@)
}

spec fn values_of(entries: Seq<(String, String)>) -> Seq<Seq<char>> {
    Seq::new(entries.len(), |i: int| entries[i].1@)
}

impl Replacements {
    spec fn names(self) -> Seq<Seq<char>> {
        names_of(self.entries@)
    }

    spec fn values(self) -> Seq<Seq<char>> {
        values_of(self.entries@)
    }

    #[verifier::type_invariant]
    spec fn names_are_distinct(self) -> bool {
        self.names().no_duplicates()
    }

    /// A table without entries.
    pub fn new() -> (r: Replacements)
        ensures
            r@ == Map::<Seq<char>, Seq<char>>::empty(),
    {
        let r = Replacements { entries: Vec::new() };
        assert(r@ =~= Map::<Seq<char>, Seq<char>>::empty());
        r
    }

    fn position(&self, name: &str) -> (r: Option<usize>)
        ensures
            match r {
                Some(i) => i < self.entries@.len() && self.names()[i as int] == name@,
                None => !self.names().contains(name@),
            },
    {
        let mut i: usize = 0;
        while i < self.entries.len()
            invariant
                i <= self.entries.len(),
                forall|j: int| 0 <= j < i ==> self.names()[j] != name@,
            decreases self.entries.len() - i,
        {
            if same_text(self.entries[i].0.as_str(), name) {
                return Some(i);
            }
            i = i + 1;
        }
        None
    }

    /// The replacement for `name`, if the table has one.
    pub fn get(&self, name: &str) -> (r: Option<&String>)
        ensures
            match r {
                Some(v) => self@.contains_key(name@) && self@[name@] == v@,
                None => !self@.contains_key(name@),
            },
    {
        proof {
            use_type_invariant(self);
        }
        match self.position(name) {
            Some(i) => {
                proof {
                    lemma_assoc_lookup(self.names(), self.values(), i as int);
                }
                Some(&self.entries[i].1)
            },
            None => None,
        }
    }

    /// Sets the replacement for `name`, in place of any earlier one.
    pub fn insert(&mut self, name: String, value: String)
        ensures
            final(self)@ == old(self)@.insert(name@, value@),
    {
        proof {
            use_type_invariant(&*self);
        }
        let ghost names = self.names();
        let ghost values = self.values();
        let found = self.position(name.as_str());
        let mut entries: Vec<(String, String)> = Vec::new();
        std::mem::swap(&mut entries, &mut self.entries);
        match found {
            Some(i) => {
                entries[i].1 = value;
                proof {
                    assert(names_of(entries@) =~= names);
                    assert(values_of(entries@) =~= values.update(i as int, value@));
                    lemma_assoc_update(names, values, i as int, value@);
                }
            },
            None => {
                entries.push((name, value));
                proof {
                    assert(names_of(entries@) =~= names.push(name@));
                    assert(values_of(entries@) =~= values.push(value@));
                    lemma_assoc_push(names, values, name@, value@);
                }
            },
        }
        self.entries = entries;
    }

    /// The number of entries.
    pub fn len(&self) -> (n: usize)
        ensures
            n == self@.dom().len(),
    {
        proof {
            use_type_invariant(self);
            crate::misc::assoc::lemma_assoc_domain(self.names(), self.values());
            self.names().unique_seq_to_set();
        }
        self.entries.len()
    }
}

} // verus!
