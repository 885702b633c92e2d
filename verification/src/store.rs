//! A variable store that the library provides: names and their values.

use vstd::prelude::*;
use vstd::string::StringExecFns;
use crate::interpreter::{Environment, Variant, VariantModel};
use crate::lowering::{first_key, lemma_first_key};

verus! {

/// The names and values of a list of entries, in order.
pub open spec fn entries_model(entries: Seq<(String, Variant)>) -> Seq<(Seq<char>, VariantModel)> {
    Seq::new(entries.len(), |i: int| (entries[i].0@, entries[i].1@))
}

/// The map that a list of entries stands for: each name with the value of
/// its first entry.
pub open spec fn map_of(entries: Seq<(Seq<char>, VariantModel)>) -> Map<Seq<char>, VariantModel> {
    Map::new(
        |name: Seq<char>| first_key(entries, name, 0) is Some,
        |name: Seq<char>| entries[first_key(entries, name, 0)->Some_0 as int].1,
    )
}

/// A store of variables, from names to values.
#[derive(Debug)]
pub struct Variables {
    entries: Vec<(String, Variant)>,
}

impl View for Variables {
    type V = Map<Seq<char>, VariantModel>;

    closed spec fn view(&self) -> Map<Seq<char>, VariantModel> {
        map_of(entries_model(self.entries@))
    }
}

/// Lists with the same names find a name at the same index.
proof fn lemma_same_keys(
    a: Seq<(Seq<char>, VariantModel)>,
    b: Seq<(Seq<char>, VariantModel)>,
    name: Seq<char>,
    from: nat,
)
    requires
        a.len() == b.len(),
        forall|i: int| 0 <= i < a.len() ==> a[i].0 == b[i].0,
    ensures
        first_key(a, name, from) == first_key(b, name, from),
    decreases a.len() - from,
{
    if from < a.len() && a[from as int].0 != name {
        lemma_same_keys(a, b, name, from + 1);
    }
}

/// What a name's first entry is after one more entry.
proof fn lemma_pushed_key(
    a: Seq<(Seq<char>, VariantModel)>,
    entry: (Seq<char>, VariantModel),
    name: Seq<char>,
    from: nat,
)
    requires
        from <= a.len(),
    ensures
        first_key(a.push(entry), name, from) == match first_key(a, name, from) {
            Some(index) => Some(index),
            None => if entry.0 == name {
                Some(a.len())
            } else {
                None
            },
        },
    decreases a.len() - from,
{
    if from < a.len() {
        if a[from as int].0 != name {
            lemma_pushed_key(a, entry, name, from + 1);
        }
    } else {
        assert(first_key(a.push(entry), name, from + 1) is None);
    }
}

impl Variables {
    /// A store that holds nothing.
    pub fn new() -> (store: Self)
        ensures
            store@ == Map::<Seq<char>, VariantModel>::empty(),
    {
        let store = Variables { entries: Vec::new() };
        proof {
            assert(store@ =~= Map::<Seq<char>, VariantModel>::empty());
        }
        store
    }

    /// The index of the first entry under `name`.
    fn find(&self, name: &str) -> (found: Option<usize>)
        ensures
            match found {
                Some(index) => first_key(entries_model(self.entries@), name@, 0) == Some(
                    index as nat,
                ) && index < self.entries.len(),
                None => first_key(entries_model(self.entries@), name@, 0) is None,
            },
    {
        let key = String::from_str(name);
        let mut i: usize = 0;
        proof {
            lemma_first_key(entries_model(self.entries@), name@, 0);
        }
        while i < self.entries.len()
            invariant
                key@ == name@,
                first_key(entries_model(self.entries@), name@, 0) == first_key(
                    entries_model(self.entries@),
                    name@,
                    i as nat,
                ),
            decreases self.entries.len() - i,
        {
            if self.entries[i].0 == key {
                return Some(i);
            }
            i += 1;
        }
        None
    }
}

impl Environment for Variables {
    open spec fn lookup(&self, name: Seq<char>) -> Option<VariantModel> {
        if self@.contains_key(name) {
            Some(self@[name])
        } else {
            None
        }
    }

    fn get(&self, name: &str) -> (value: Option<Variant>) {
        match self.find(name) {
            Some(index) => Some(self.entries[index].1.clone()),
            None => None,
        }
    }

    fn set(&mut self, name: &str, value: Variant)
        ensures
            final(self)@ == old(self)@.insert(name@, value@),
    {
        let ghost before = entries_model(self.entries@);
        let ghost stored = (name@, value@);
        match self.find(name) {
            Some(index) => {
                self.entries.set(index, (String::from_str(name), value));
                let ghost after = entries_model(self.entries@);
                proof {
                    lemma_first_key(before, name@, 0);
                    assert(after =~= before.update(index as int, stored));
                    assert forall|other: Seq<char>|
                        first_key(after, other, 0) == first_key(before, other, 0) by {
                        lemma_same_keys(after, before, other, 0);
                    }
                    assert forall|other: Seq<char>|
                        first_key(before, other, 0) is Some implies ({
                        let at = first_key(before, other, 0)->Some_0;
                        at < before.len() && before[at as int].0 == other
                    }) by {
                        lemma_first_key(before, other, 0);
                    }
                    assert(map_of(after) =~= map_of(before).insert(name@, value@));
                }
            },
            None => {
                self.entries.push((String::from_str(name), value));
                let ghost after = entries_model(self.entries@);
                proof {
                    assert(after =~= before.push(stored));
                    assert forall|other: Seq<char>|
                        first_key(after, other, 0) == match first_key(before, other, 0) {
                            Some(index) => Some(index),
                            None => if name@ == other {
                                Some(before.len())
                            } else {
                                None
                            },
                        } by {
                        lemma_pushed_key(before, stored, other, 0);
                    }
                    assert forall|other: Seq<char>|
                        first_key(before, other, 0) is Some implies first_key(
                        before,
                        other,
                        0,
                    )->Some_0 < before.len() by {
                        lemma_first_key(before, other, 0);
                    }
                    assert(map_of(after) =~= map_of(before).insert(name@, value@));
                }
            },
        }
    }
}

} // verus!
