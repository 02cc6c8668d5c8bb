//! A map from names to values that remembers the order of insertion.
use crate::text::same;
use rustc_hash::{FxBuildHasher, FxHashMap};
use vstd::prelude::*;
use vstd::string::*;

verus! {

/// The hasher type of `rustc_hash`; only carried through.
#[verifier::external_type_specification]
#[verifier::external_body]
pub struct ExFxBuildHasher(FxBuildHasher);

/// What a `rustc_hash::FxHashMap` from strings to positions holds.
pub uninterp spec fn positions(index: FxHashMap<String, usize>) -> Map<Seq<char>, usize>;

/// No position for any name.
pub open spec fn no_positions() -> Map<Seq<char>, usize> {
    Map::empty()
}

/// `FxHashMap::default` makes a map without entries.
#[verifier::external_body]
fn index_new() -> (index: FxHashMap<String, usize>)
    ensures
        positions(index) == no_positions(),
{
    FxHashMap::default()
}

/// `FxHashMap::get` finds the position stored under a key with the same characters.
#[verifier::external_body]
fn index_get(index: &FxHashMap<String, usize>, name: &str) -> (position: Option<usize>)
    ensures
        position == (if positions(*index).dom().contains(name@) {
            Some(positions(*index)[name@])
        } else {
            None::<usize>
        }),
{
    index.get(name).copied()
}

/// `FxHashMap::insert` stores the position under the key and replaces an earlier one.
#[verifier::external_body]
fn index_insert(index: &mut FxHashMap<String, usize>, name: String, position: usize)
    ensures
        positions(*final(index)) == positions(*old(index)).insert(name@, position),
{
    index.insert(name, position);
}

/// A map from names to values; entries keep the order in which their names first came.
#[derive(Debug)]
pub struct NameMap<V> {
    index: FxHashMap<String, usize>,
    entries: Vec<(String, V)>,
}

impl<V> NameMap<V> {
    /// Every name stands once, at the position that the index gives.
    #[verifier::type_invariant]
    spec fn well_formed(self) -> bool {
        &&& forall|i: int|
            #![trigger self.entries@[i]]
            0 <= i < self.entries@.len() ==> positions(self.index).dom().contains(
                self.entries@[i].0@,
            ) && positions(self.index)[self.entries@[i].0@] == i
        &&& forall|k: Seq<char>| #[trigger]
            positions(self.index).dom().contains(k) ==> positions(self.index)[k]
                < self.entries@.len() && self.entries@[positions(self.index)[k] as int].0@ == k
    }

    /// The names in the order of insertion.
    pub closed spec fn keys(self) -> Seq<Seq<char>> {
        Seq::new(self.entries@.len(), |i: int| self.entries@[i].0@)
    }

    /// The values in the order of their names.
    pub closed spec fn values(self) -> Seq<V> {
        Seq::new(self.entries@.len(), |i: int| self.entries@[i].1)
    }

    /// The value of each name.
    pub closed spec fn map(self) -> Map<Seq<char>, V> {
        Map::new(
            |k: Seq<char>| positions(self.index).dom().contains(k),
            |k: Seq<char>| self.entries@[positions(self.index)[k] as int].1,
        )
    }

    /// What the type keeps: names are distinct, and the map gives each name its value.
    pub open spec fn consistent(self) -> bool {
        &&& self.keys().len() == self.values().len()
        &&& self.keys().no_duplicates()
        &&& forall|k: Seq<char>| #[trigger]
            self.map().dom().contains(k) <==> self.keys().contains(k)
        &&& forall|i: int|
            #![trigger self.keys()[i]]
            0 <= i < self.keys().len() ==> self.map().dom().contains(self.keys()[i])
                && self.map()[self.keys()[i]] == self.values()[i]
    }

    /// Every map is consistent.
    pub fn check(&self)
        ensures
            self.consistent(),
    {
        proof {
            use_type_invariant(self);
            let n = self.entries@.len() as int;
            assert forall|k: Seq<char>| #[trigger] self.map().dom().contains(k)
                implies self.keys().contains(k) by {
                let i = positions(self.index)[k] as int;
                assert(self.keys()[i] == k);
            }
            assert forall|k: Seq<char>| self.keys().contains(k)
                implies #[trigger] self.map().dom().contains(k) by {
                let i = choose|i: int| 0 <= i < self.keys().len() && self.keys()[i] == k;
                assert(self.entries@[i].0@ == k);
            }
            assert forall|i: int, j: int| 0 <= i < n && 0 <= j < n && i != j
                implies self.keys()[i] != self.keys()[j] by {
                assert(positions(self.index)[self.entries@[i].0@] == i);
                assert(positions(self.index)[self.entries@[j].0@] == j);
            }
            assert forall|i: int| #![trigger self.keys()[i]] 0 <= i < self.keys().len()
                implies self.map().dom().contains(self.keys()[i])
                && self.map()[self.keys()[i]] == self.values()[i] by {
                assert(positions(self.index)[self.entries@[i].0@] == i);
            }
        }
    }

    /// A map without entries.
    pub fn new() -> (r: Self)
        ensures
            r.keys() == Seq::<Seq<char>>::empty(),
            r.values() == Seq::<V>::empty(),
            r.map() == Map::<Seq<char>, V>::empty(),
    {
        NameMap { index: index_new(), entries: Vec::new() }
    }

    /// The number of entries.
    pub fn len(&self) -> (r: usize)
        ensures
            r == self.keys().len(),
    {
        self.entries.len()
    }

    /// The name at a position.
    pub fn key_at(&self, i: usize) -> (r: &String)
        requires
            i < self.keys().len(),
        ensures
            r@ == self.keys()[i as int],
    {
        &self.entries[i].0
    }

    /// The value at a position.
    pub fn value_at(&self, i: usize) -> (r: &V)
        requires
            i < self.keys().len(),
        ensures
            *r == self.values()[i as int],
    {
        &self.entries[i].1
    }

    /// The position of a name.
    pub fn position(&self, name: &str) -> (r: Option<usize>)
        ensures
            r is Some <==> self.map().dom().contains(name@),
            r matches Some(i) ==> i < self.keys().len() && self.keys()[i as int] == name@
                && self.values()[i as int] == self.map()[name@],
    {
        proof {
            use_type_invariant(self);
        }
        index_get(&self.index, name)
    }

    /// Whether a name has a value.
    pub fn contains_key(&self, name: &str) -> (r: bool)
        ensures
            r == self.map().dom().contains(name@),
    {
        self.position(name).is_some()
    }

    /// The value of a name.
    pub fn get(&self, name: &str) -> (r: Option<&V>)
        ensures
            r is Some <==> self.map().dom().contains(name@),
            r matches Some(v) ==> *v == self.map()[name@],
    {
        match self.position(name) {
            Some(i) => Some(&self.entries[i].1),
            None => None,
        }
    }

    /// Gives a name a value; a name that was there keeps its place.
    pub fn insert(&mut self, name: String, value: V)
        ensures
            final(self).map() == old(self).map().insert(name@, value),
            final(self).keys() == (if old(self).map().dom().contains(name@) {
                old(self).keys()
            } else {
                old(self).keys().push(name@)
            }),
    {
        let mut taken = NameMap::new();
        std::mem::swap(self, &mut taken);
        proof {
            use_type_invariant(&taken);
        }
        let ghost before = taken;
        let found = index_get(&taken.index, name.as_str());
        let NameMap { mut index, mut entries } = taken;
        match found {
            Some(i) => {
                let ghost whole = entries@;
                entries.set(i, (name, value));
                *self = NameMap { index, entries };
                assert(self.map() =~= before.map().insert(name@, value)) by {
                    assert forall|k: Seq<char>| before.map().dom().contains(k) && k != name@
                        implies positions(before.index)[k] != i by {}
                }
                assert(self.keys() =~= before.keys());
            },
            None => {
                let i: usize = entries.len();
                let key = name.clone();
                index_insert(&mut index, key, i);
                entries.push((name, value));
                *self = NameMap { index, entries };
                assert(self.map() =~= before.map().insert(name@, value));
                assert(self.keys() =~= before.keys().push(name@));
            },
        }
    }

    /// The names with their values, in the order of the names.
    pub fn into_entries(self) -> (r: Vec<(String, V)>)
        ensures
            r@.len() == self.keys().len(),
            forall|i: int|
                #![trigger r@[i]]
                0 <= i < r@.len() ==> r@[i].0@ == self.keys()[i] && r@[i].1 == self.values()[i],
    {
        let NameMap { index: _, entries } = self;
        entries
    }

    /// Gives a name that has a value another one, and hands out the one it had.
    pub fn replace(&mut self, name: &str, value: V) -> (r: V)
        requires
            old(self).map().dom().contains(name@),
        ensures
            r == old(self).map()[name@],
            final(self).map() == old(self).map().insert(name@, value),
            final(self).keys() == old(self).keys(),
    {
        let mut taken = NameMap::new();
        std::mem::swap(self, &mut taken);
        proof {
            use_type_invariant(&taken);
        }
        let ghost before = taken;
        let found = index_get(&taken.index, name);
        let NameMap { index, mut entries } = taken;
        let i: usize = found.unwrap();
        let mut entry = (name.to_string(), value);
        let ghost whole = entries@;
        entries.set_and_swap(i, &mut entry);
        *self = NameMap { index, entries };
        assert(self.map() =~= before.map().insert(name@, value)) by {
            assert forall|k: Seq<char>| before.map().dom().contains(k) && k != name@
                implies positions(before.index)[k] != i by {}
        }
        assert(self.keys() =~= before.keys());
        entry.1
    }

    /// The map without one name; the others keep their order.
    pub fn without(self, name: &str) -> (r: Self)
        ensures
            r.map() == self.map().remove(name@),
            r.keys() == self.keys().filter(|k: Seq<char>| k != name@),
    {
        proof {
            use_type_invariant(&self);
        }
        self.check();
        let ghost keys = self.keys();
        let ghost values = self.values();
        let ghost map = self.map();
        let NameMap { index: _, entries } = self;
        let mut r: NameMap<V> = NameMap::new();
        let ghost p = |k: Seq<char>| k != name@;
        assert(keys.take(0) =~= Seq::<Seq<char>>::empty());
        reveal(Seq::filter);
        for entry in it: entries
            invariant
                it.seq().len() == keys.len(),
                keys.len() == values.len(),
                keys.no_duplicates(),
                p == (|k: Seq<char>| k != name@),
                forall|j: int| #![trigger it.seq()[j]] 0 <= j < keys.len()
                    ==> it.seq()[j].0@ == keys[j] && it.seq()[j].1 == values[j],
                forall|k: Seq<char>| #[trigger] map.dom().contains(k) <==> keys.contains(k),
                forall|j: int| #![trigger keys[j]] 0 <= j < keys.len()
                    ==> map[keys[j]] == values[j],
                r.keys() == keys.take(it.index()).filter(p),
                forall|k: Seq<char>| #[trigger] r.map().dom().contains(k) <==> k != name@
                    && keys.take(it.index()).contains(k),
                forall|k: Seq<char>| #[trigger] r.map().dom().contains(k) ==> r.map()[k] == map[k],
        {
            let ghost j = it.index();
            let (key, value) = entry;
            assert(keys.take(j + 1).drop_last() =~= keys.take(j));
            assert(keys.take(j + 1).last() == keys[j]);
            assert(forall|k: Seq<char>| keys.take(j + 1).contains(k) <==> keys.take(j).contains(k)
                || k == keys[j]) by {
                assert(keys.take(j + 1) =~= keys.take(j).push(keys[j]));
                assert(keys.take(j + 1)[j] == keys[j]);
                assert forall|k: Seq<char>| keys.take(j).contains(k)
                    implies keys.take(j + 1).contains(k) by {
                    let m = choose|m: int| 0 <= m < j && keys.take(j)[m] == k;
                    assert(keys.take(j + 1)[m] == k);
                }
            }
            assert(!keys.take(j).contains(keys[j]));
            if !same(key.as_str(), name) {
                r.insert(key, value);
            }
            reveal(Seq::filter);
        }
        assert(keys.take(keys.len() as int) =~= keys);
        assert(r.map() =~= map.remove(name@));
        r
    }
}

impl<V: DeepView> DeepView for NameMap<V> {
    type V = Map<Seq<char>, V::V>;

    /// The model of the value of each name.
    open spec fn deep_view(&self) -> Map<Seq<char>, V::V> {
        self.map().map_values(|v: V| v.deep_view())
    }
}

} // verus!
