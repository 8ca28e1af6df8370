//! Bindings: the values that the variables of a formula stand for.

use vstd::prelude::*;
use crate::ident::Ident;

verus! {

/// The binding that a list of pairs of a name and a value describes: each
/// name is bound to the value of the last pair that holds it.
pub open spec fn bound<T>(pairs: Seq<(Ident, T)>) -> Map<Seq<char>, T>
    decreases pairs.len(),
{
    if pairs.len() == 0 {
        Map::empty()
    } else {
        bound(pairs.drop_last()).insert(pairs.last().0@, pairs.last().1)
    }
}

/// A mapping from identifiers to values, each identifier bound once.
pub struct Bindings<T> {
    entries: Vec<(Ident, T)>,
}

impl<T> Bindings<T> {
    /// No two entries hold the same name.
    pub closed spec fn wf(&self) -> bool {
        forall|i: int, j: int|
            0 <= i < j < self.entries.len() ==> (#[trigger] self.entries[i]).0@
                != (#[trigger] self.entries[j]).0@
    }

    /// Whether entry `i` binds `name`.
    spec fn binds(&self, i: int, name: Seq<char>) -> bool {
        0 <= i < self.entries.len() && self.entries[i].0@ == name
    }

    /// The position of the entry that binds `name`.
    spec fn position(&self, name: Seq<char>) -> int {
        choose|i: int| self.binds(i, name)
    }

    /// The binding as a map from names to values.
    pub closed spec fn view(&self) -> Map<Seq<char>, T> {
        Map::new(
            |name: Seq<char>| exists|i: int| self.binds(i, name),
            |name: Seq<char>| self.entries[self.position(name)].1,
        )
    }

    /// Entry `i` is the entry that binds its name.
    proof fn lemma_entry(&self, i: int)
        requires
            self.wf(),
            0 <= i < self.entries.len(),
        ensures
            self@.contains_key(self.entries[i].0@),
            self@[self.entries[i].0@] == self.entries[i].1,
    {
        let name = self.entries[i].0@;
        assert(self.binds(i, name));
        let p = self.position(name);
        assert(self.binds(p, name));
        if p < i {
            assert(self.entries[p].0@ != self.entries[i].0@);
        }
        if i < p {
            assert(self.entries[i].0@ != self.entries[p].0@);
        }
    }

    /// A binding of nothing.
    pub fn new() -> (r: Self)
        ensures
            r.wf(),
            r@ == Map::<Seq<char>, T>::empty(),
    {
        let r = Bindings { entries: Vec::new() };
        assert(r@ =~= Map::<Seq<char>, T>::empty());
        r
    }

    /// The position of the entry that binds `name`, if there is one.
    fn find(&self, name: &Ident) -> (r: Option<usize>)
        requires
            self.wf(),
        ensures
            match r {
                Some(i) => self.binds(i as int, name@),
                None => !self@.contains_key(name@),
            },
    {
        let mut i: usize = 0;
        while i < self.entries.len()
            invariant
                0 <= i <= self.entries.len(),
                forall|k: int| 0 <= k < i ==> !self.binds(k, name@),
            decreases self.entries.len() - i,
        {
            if self.entries[i].0 == *name {
                return Some(i);
            }
            i += 1;
        }
        None
    }

    /// Whether `name` is bound.
    pub fn contains(&self, name: &Ident) -> (r: bool)
        requires
            self.wf(),
        ensures
            r == self@.contains_key(name@),
    {
        match self.find(name) {
            Some(i) => {
                proof {
                    self.lemma_entry(i as int);
                }
                true
            },
            None => false,
        }
    }

    /// The value that `name` is bound to, if it is bound.
    pub fn get(&self, name: &Ident) -> (r: Option<&T>)
        requires
            self.wf(),
        ensures
            match r {
                Some(value) => self@.contains_key(name@) && *value == self@[name@],
                None => !self@.contains_key(name@),
            },
    {
        match self.find(name) {
            Some(i) => {
                proof {
                    self.lemma_entry(i as int);
                }
                Some(&self.entries[i].1)
            },
            None => None,
        }
    }

    /// Takes the binding apart for the value that `name` is bound to.
    pub fn take(self, name: &Ident) -> (r: Option<T>)
        requires
            self.wf(),
        ensures
            match r {
                Some(value) => self@.contains_key(name@) && value == self@[name@],
                None => !self@.contains_key(name@),
            },
    {
        match self.find(name) {
            Some(i) => {
                proof {
                    self.lemma_entry(i as int);
                }
                let mut entries = self.entries;
                let (_, value) = entries.swap_remove(i);
                Some(value)
            },
            None => None,
        }
    }

    /// Binds `ident` to `value` where `ident` is not bound yet; leaves the
    /// binding as it is where it is.
    pub fn insert_new(&mut self, ident: Ident, value: T)
        requires
            old(self).wf(),
        ensures
            final(self).wf(),
            final(self)@ == if old(self)@.contains_key(ident@) {
                old(self)@
            } else {
                old(self)@.insert(ident@, value)
            },
    {
        let ghost before = *self;
        if self.find(&ident).is_none() {
            self.entries.push((ident, value));
            proof {
                assert(self.wf()) by {
                    assert forall|i: int, j: int| 0 <= i < j < self.entries.len() implies (
                    #[trigger] self.entries[i]).0@ != (#[trigger] self.entries[j]).0@ by {
                        if j == self.entries.len() - 1 {
                            assert(!before.binds(i, ident@));
                        } else {
                            assert(before.entries[i].0@ != before.entries[j].0@);
                        }
                    }
                }
                let after = *self;
                assert forall|name: Seq<char>| #[trigger]
                    after@.contains_key(name) == before@.insert(ident@, value).contains_key(
                        name,
                    ) by {
                    if after@.contains_key(name) {
                        let i = choose|i: int| after.binds(i, name);
                        if i < before.entries.len() {
                            assert(before.binds(i, name));
                        }
                    }
                    if before@.contains_key(name) {
                        let i = choose|i: int| before.binds(i, name);
                        assert(after.binds(i, name));
                    }
                    if name == ident@ {
                        assert(after.binds(after.entries.len() - 1, name));
                    }
                }
                assert forall|name: Seq<char>| after@.contains_key(name) implies #[trigger] after@[name]
                    == before@.insert(ident@, value)[name] by {
                    let i = choose|i: int| after.binds(i, name);
                    after.lemma_entry(i);
                    if i < before.entries.len() {
                        assert(before.binds(i, name));
                        before.lemma_entry(i);
                    }
                }
                assert(after@ =~= before@.insert(ident@, value));
            }
        } else {
            proof {
                let i = choose|i: int| before.binds(i, ident@);
                before.lemma_entry(i);
            }
        }
    }
}

/// Builds the binding that a list of pairs describes: where a name occurs
/// more than once, the last pair that holds it counts.
pub fn to_variables_map<T>(valued_idents: Vec<(Ident, T)>) -> (variables: Bindings<T>)
    ensures
        variables.wf(),
        variables@ == bound(valued_idents@),
{
    let ghost given = valued_idents@;
    let mut pairs = valued_idents;
    let mut variables = Bindings::new();
    proof {
        assert(given.take(given.len() as int) =~= given);
        assert(bound(given).union_prefer_right(variables@) =~= bound(given));
    }
    while pairs.len() > 0
        invariant
            variables.wf(),
            pairs@ == given.take(pairs.len() as int),
            pairs.len() <= given.len(),
            bound(given) == bound(pairs@).union_prefer_right(variables@),
        decreases pairs.len(),
    {
        let ghost before = variables@;
        let ghost longer = pairs@;
        let (ident, value) = pairs.pop().unwrap();
        variables.insert_new(ident, value);
        proof {
            assert(pairs@ =~= longer.drop_last());
            assert(pairs@ =~= given.take(pairs.len() as int));
            assert(bound(longer) == bound(pairs@).insert(ident@, value));
            assert(bound(pairs@).union_prefer_right(variables@) =~= bound(longer).union_prefer_right(
                before,
            ));
        }
    }
    proof {
        assert(bound(pairs@) =~= Map::<Seq<char>, T>::empty());
        assert(bound(pairs@).union_prefer_right(variables@) =~= variables@);
    }
    variables
}

} // verus!
