//! Task attributes: a mapping from unique names to JSON values.

use crate::assoc::{
    distinct_keys, lemma_pairs_dom, lemma_pairs_len, lemma_pairs_push, lemma_pairs_remove,
    lemma_pairs_update, lemma_pairs_value, pairs_map,
};
use crate::json::Json;
use vstd::prelude::*;

verus! {

/// `str`'s `==` from std compares two string slices character by character.
pub assume_specification[ <str as PartialEq>::eq ](a: &str, b: &str) -> (r: bool)
    ensures
        r == (a@ == b@),
;

/// One named attribute.
#[derive(Debug)]
pub struct Attribute {
    pub name: String,
    pub value: Json,
}

/// Attributes of a task: each name occurs once and maps to a JSON value. The
/// order of the entries carries no meaning.
#[derive(Debug)]
pub struct TaskAttributes {
    entries: Vec<Attribute>,
}

/// The entries as pairs of a name and the compact text of its value.
pub open spec fn attribute_pairs(s: Seq<Attribute>) -> Seq<(Seq<char>, Seq<char>)> {
    s.map_values(|a: Attribute| (a.name@, a.value@))
}

impl View for TaskAttributes {
    type V = Map<Seq<char>, Seq<char>>;

    closed spec fn view(&self) -> Map<Seq<char>, Seq<char>> {
        pairs_map(attribute_pairs(self.entries@))
    }
}

impl TaskAttributes {
    /// Well-formed: no name occurs twice.
    pub closed spec fn wf(self) -> bool {
        distinct_keys(attribute_pairs(self.entries@))
    }

    /// The entries in storage order.
    pub closed spec fn entries(self) -> Seq<Attribute> {
        self.entries@
    }

    /// Every entry is mapped, and there are as many entries as mapped names.
    pub proof fn lemma_entries(self)
        requires
            self.wf(),
        ensures
            self@.dom().finite(),
            self@.len() == self.entries().len(),
            forall|i: int|
                0 <= i < self.entries().len() ==> {
                    let e = #[trigger] self.entries()[i];
                    self@.contains_key(e.name@) && self@[e.name@] == e.value@
                },
    {
        let pairs = attribute_pairs(self.entries@);
        lemma_pairs_len(pairs);
        assert forall|i: int| 0 <= i < self.entries().len() implies {
            let e = #[trigger] self.entries()[i];
            self@.contains_key(e.name@) && self@[e.name@] == e.value@
        } by {
            lemma_pairs_value(pairs, i);
        }
    }

    /// No attributes.
    pub fn new() -> (r: TaskAttributes)
        ensures
            r.wf(),
            r@ == Map::<Seq<char>, Seq<char>>::empty(),
            r.entries().len() == 0,
    {
        TaskAttributes { entries: Vec::new() }
    }

    /// The number of attributes.
    pub fn len(&self) -> (n: usize)
        requires
            self.wf(),
        ensures
            n == self@.len(),
            n == self.entries().len(),
    {
        proof {
            self.lemma_entries();
        }
        self.entries.len()
    }

    fn position(&self, name: &str) -> (r: Option<usize>)
        ensures
            match r {
                Some(i) => i < self.entries().len() && self.entries()[i as int].name@ == name@,
                None => !self@.contains_key(name@),
            },
    {
        let mut i: usize = 0;
        while i < self.entries.len()
            invariant
                i <= self.entries.len(),
                forall|j: int| 0 <= j < i ==> (#[trigger] self.entries@[j]).name@ != name@,
            decreases self.entries.len() - i,
        {
            if *self.entries[i].name.as_str() == *name {
                return Some(i);
            }
            i += 1;
        }
        proof {
            let pairs = attribute_pairs(self.entries@);
            lemma_pairs_dom(pairs, name@);
            if self@.contains_key(name@) {
                let j = choose|j: int| 0 <= j < pairs.len() && (#[trigger] pairs[j]).0 == name@;
                assert(self.entries@[j].name@ == name@);
            }
        }
        None
    }

    /// The value of the attribute `name`, if there is one.
    pub fn get(&self, name: &str) -> (r: Option<&Json>)
        requires
            self.wf(),
        ensures
            match r {
                Some(value) => self@.contains_key(name@) && value@ == self@[name@],
                None => !self@.contains_key(name@),
            },
    {
        match self.position(name) {
            Some(i) => {
                proof {
                    self.lemma_entries();
                }
                Some(&self.entries[i].value)
            },
            None => None,
        }
    }

    /// Whether the attribute `name` is present with a value equal to `value`.
    pub fn holds(&self, name: &str, value: &Json) -> (r: bool)
        requires
            self.wf(),
        ensures
            r == (self@.contains_key(name@) && self@[name@] == value@),
    {
        match self.get(name) {
            Some(found) => *found == *value,
            None => false,
        }
    }

    /// Sets the attribute `name` to `value`. Returns the value that the name
    /// had before, if it had one.
    pub fn insert(&mut self, name: String, value: Json) -> (previous: Option<Json>)
        requires
            old(self).wf(),
        ensures
            final(self).wf(),
            final(self)@ == old(self)@.insert(name@, value@),
            match previous {
                Some(p) => old(self)@.contains_key(name@) && p@ == old(self)@[name@],
                None => !old(self)@.contains_key(name@),
            },
    {
        let ghost before = self.entries@;
        let ghost pairs = attribute_pairs(before);
        match self.position(name.as_str()) {
            Some(i) => {
                let mut prev = value;
                core::mem::swap(&mut self.entries[i].value, &mut prev);
                proof {
                    lemma_pairs_value(pairs, i as int);
                    lemma_pairs_update(pairs, i as int, value@);
                    assert(attribute_pairs(self.entries@) =~= pairs.update(
                        i as int,
                        (pairs[i as int].0, value@),
                    ));
                }
                Some(prev)
            },
            None => {
                self.entries.push(Attribute { name, value });
                proof {
                    lemma_pairs_push(pairs, name@, value@);
                    assert(attribute_pairs(self.entries@) =~= pairs.push((name@, value@)));
                }
                None
            },
        }
    }

    /// Takes the attribute `name` out. Returns the value that it had, if it
    /// was there.
    pub fn remove(&mut self, name: &str) -> (previous: Option<Json>)
        requires
            old(self).wf(),
        ensures
            final(self).wf(),
            final(self)@ == old(self)@.remove(name@),
            match previous {
                Some(p) => old(self)@.contains_key(name@) && p@ == old(self)@[name@],
                None => !old(self)@.contains_key(name@),
            },
    {
        let ghost pairs = attribute_pairs(self.entries@);
        match self.position(name) {
            Some(i) => {
                let gone = self.entries.remove(i);
                proof {
                    lemma_pairs_value(pairs, i as int);
                    lemma_pairs_remove(pairs, i as int);
                    assert(attribute_pairs(self.entries@) =~= pairs.remove(i as int));
                }
                Some(gone.value)
            },
            None => {
                assert(self@ =~= self@.remove(name@));
                None
            },
        }
    }

    /// The entry at `index` in storage order, for walking all attributes.
    pub fn entry(&self, index: usize) -> (r: Option<&Attribute>)
        ensures
            match r {
                Some(e) => index < self.entries().len() && *e == self.entries()[index as int],
                None => index >= self.entries().len(),
            },
    {
        if index < self.entries.len() {
            Some(&self.entries[index])
        } else {
            None
        }
    }
}

} // verus!
