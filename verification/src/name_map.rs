//! A small map from names to names.

use vstd::prelude::*;

#[allow(unused_imports)]
use crate::views::{group_views, views};

verus! {

broadcast use {vstd::string::group_string_axioms, group_views};

/// A pair of names, as a value.
pub type NamePair = (Seq<char>, Seq<char>);

/// No two pairs share a key.
pub open spec fn distinct_keys(pairs: Seq<NamePair>) -> bool {
    forall|i: int, j: int|
        0 <= i < j < pairs.len() ==> (#[trigger] pairs[i]).0 != (#[trigger] pairs[j]).0
}

/// The map that a list of pairs stands for.
pub open spec fn pairs_map(pairs: Seq<NamePair>) -> Map<Seq<char>, Seq<char>>
    decreases pairs.len(),
{
    if pairs.len() == 0 {
        Map::empty()
    } else {
        pairs_map(pairs.drop_last()).insert(pairs.last().0, pairs.last().1)
    }
}

/// A map from names to names: each key has one value.
#[derive(Debug)]
pub struct NameMap {
    entries: Vec<(String, String)>,
}

impl View for NameMap {
    type V = Map<Seq<char>, Seq<char>>;

    closed spec fn view(&self) -> Map<Seq<char>, Seq<char>> {
        pairs_map(views(self.entries@))
    }
}

/// What the map of a list of pairs holds.
proof fn pairs_map_holds(pairs: Seq<NamePair>, key: Seq<char>)
    requires
        distinct_keys(pairs),
    ensures
        pairs_map(pairs).dom().finite(),
        pairs_map(pairs).len() == pairs.len(),
        pairs_map(pairs).contains_key(key) <==> exists|i: int|
            0 <= i < pairs.len() && (#[trigger] pairs[i]).0 == key,
        forall|i: int|
            0 <= i < pairs.len() && (#[trigger] pairs[i]).0 == key ==> pairs_map(pairs)[key]
                == pairs[i].1,
    decreases pairs.len(),
{
    if pairs.len() > 0 {
        let before = pairs.drop_last();
        assert(distinct_keys(before)) by {
            assert forall|i: int, j: int| 0 <= i < j < before.len() implies (
            #[trigger] before[i]).0 != (#[trigger] before[j]).0 by {
                assert(before[i] == pairs[i] && before[j] == pairs[j]);
            }
        }
        pairs_map_holds(before, key);
        pairs_map_holds(before, pairs.last().0);
        if pairs_map(before).contains_key(pairs.last().0) {
            let i = choose|i: int| 0 <= i < before.len() && (#[trigger] before[i]).0 == pairs.last().0;
            assert(pairs[i].0 == pairs[pairs.len() - 1].0);
        }
        if pairs_map(before).contains_key(key) {
            let i = choose|i: int| 0 <= i < before.len() && (#[trigger] before[i]).0 == key;
            assert(pairs[i].0 == key);
        }
        if key == pairs.last().0 {
            assert(pairs[pairs.len() - 1].0 == key);
        }
        if exists|i: int| 0 <= i < pairs.len() && (#[trigger] pairs[i]).0 == key {
            let i = choose|i: int| 0 <= i < pairs.len() && (#[trigger] pairs[i]).0 == key;
            if i < before.len() {
                assert(before[i].0 == key);
            }
        }
        assert forall|i: int|
            0 <= i < pairs.len() && (#[trigger] pairs[i]).0 == key implies pairs_map(pairs)[key]
            == pairs[i].1 by {
            if i < before.len() {
                assert(before[i].0 == key);
            }
        }
    }
}

/// Changing the value of one pair changes the map at its key.
proof fn pairs_map_update(pairs: Seq<NamePair>, i: int, value: Seq<char>)
    requires
        distinct_keys(pairs),
        0 <= i < pairs.len(),
    ensures
        distinct_keys(pairs.update(i, (pairs[i].0, value))),
        pairs_map(pairs.update(i, (pairs[i].0, value))) == pairs_map(pairs).insert(
            pairs[i].0,
            value,
        ),
{
    let after = pairs.update(i, (pairs[i].0, value));
    assert(distinct_keys(after)) by {
        assert forall|a: int, b: int| 0 <= a < b < after.len() implies (#[trigger] after[a]).0 != (
        #[trigger] after[b]).0 by {
            assert(after[a].0 == pairs[a].0 && after[b].0 == pairs[b].0);
        }
    }
    let want = pairs_map(pairs).insert(pairs[i].0, value);
    assert forall|key: Seq<char>|
        #![trigger pairs_map(after).dom().contains(key)]
        #![trigger want.dom().contains(key)]
        #![trigger pairs_map(after)[key]]
        #![trigger want[key]]
        pairs_map(after).dom().contains(key) == want.dom().contains(key) && (want.dom().contains(
            key,
        ) ==> pairs_map(after)[key] == want[key]) by {
        pairs_map_holds(pairs, key);
        pairs_map_holds(after, key);
        if exists|k: int| 0 <= k < after.len() && (#[trigger] after[k]).0 == key {
            let k = choose|k: int| 0 <= k < after.len() && (#[trigger] after[k]).0 == key;
            assert(pairs[k].0 == key);
        }
        if exists|k: int| 0 <= k < pairs.len() && (#[trigger] pairs[k]).0 == key {
            let k = choose|k: int| 0 <= k < pairs.len() && (#[trigger] pairs[k]).0 == key;
            assert(after[k].0 == key);
            if key == pairs[i].0 {
                assert(after[i].0 == key);
            }
        }
    }
    assert(pairs_map(after) =~= want);
}

impl NameMap {
    #[verifier::type_invariant]
    spec fn well_formed(self) -> bool {
        distinct_keys(views(self.entries@))
    }

    /// The map without entries.
    pub fn new() -> (r: NameMap)
        ensures
            r@ == Map::<Seq<char>, Seq<char>>::empty(),
    {
        NameMap { entries: Vec::new() }
    }

    fn position(&self, key: &str) -> (r: Option<usize>)
        ensures
            match r {
                Some(i) => i < self.entries@.len() && views(self.entries@)[i as int].0 == key@,
                None => forall|i: int|
                    0 <= i < self.entries@.len() ==> (#[trigger] views(self.entries@)[i]).0 != key@,
            },
    {
        let mut i: usize = 0;
        while i < self.entries.len()
            invariant
                i <= self.entries@.len(),
                forall|j: int| 0 <= j < i ==> (#[trigger] views(self.entries@)[j]).0 != key@,
            decreases self.entries.len() - i,
        {
            if *self.entries[i].0.as_str() == *key {
                assert(views(self.entries@)[i as int].0 == key@);
                return Some(i);
            }
            i += 1;
        }
        None
    }

    /// The value of a key.
    pub fn get(&self, key: &str) -> (r: Option<&String>)
        ensures
            match r {
                Some(value) => self@.contains_key(key@) && value@ == self@[key@],
                None => !self@.contains_key(key@),
            },
    {
        proof {
            use_type_invariant(self);
            pairs_map_holds(views(self.entries@), key@);
        }
        match self.position(key) {
            Some(i) => Some(&self.entries[i].1),
            None => None,
        }
    }

    /// Gives a key a value, in place of the one it had.
    pub fn insert(&mut self, key: String, value: String)
        ensures
            final(self)@ == old(self)@.insert(key@, value@),
    {
        proof {
            use_type_invariant(&*self);
        }
        let ghost before = views(self.entries@);
        let found = self.position(key.as_str());
        let mut entries: Vec<(String, String)> = Vec::new();
        std::mem::swap(&mut entries, &mut self.entries);
        match found {
            Some(i) => {
                proof {
                    pairs_map_update(before, i as int, value@);
                }
                entries[i] = (key, value);
                assert(views(entries@) =~= before.update(i as int, (before[i as int].0, value@)));
            },
            None => {
                entries.push((key, value));
                assert(views(entries@).drop_last() =~= before);
                assert(distinct_keys(views(entries@)));
            },
        }
        self.entries = entries;
    }

    /// The number of keys.
    pub fn len(&self) -> (r: usize)
        ensures
            r == self@.len(),
            self@.dom().finite(),
    {
        proof {
            use_type_invariant(self);
            pairs_map_holds(views(self.entries@), Seq::empty());
        }
        self.entries.len()
    }

    /// Whether there is no key.
    pub fn is_empty(&self) -> (r: bool)
        ensures
            r == (self@.len() == 0),
    {
        self.len() == 0
    }

    /// The pairs of the map, in no particular order.
    pub open spec fn lists(self, pairs: Seq<NamePair>) -> bool {
        &&& distinct_keys(pairs)
        &&& pairs_map(pairs) == self@
    }

    /// Lists the pairs: each key once, with its value.
    pub fn pairs(&self) -> (r: &Vec<(String, String)>)
        ensures
            self.lists(views(r@)),
    {
        proof {
            use_type_invariant(self);
        }
        &self.entries
    }
}

impl Clone for NameMap {
    fn clone(&self) -> (r: Self)
        ensures
            r@ == self@,
    {
        proof {
            use_type_invariant(self);
        }
        let mut entries: Vec<(String, String)> = Vec::new();
        let mut i: usize = 0;
        while i < self.entries.len()
            invariant
                i <= self.entries@.len(),
                views(entries@) == views(self.entries@).take(i as int),
            decreases self.entries.len() - i,
        {
            entries.push((self.entries[i].0.clone(), self.entries[i].1.clone()));
            assert(views(self.entries@).take(i + 1) =~= views(self.entries@).take(i as int).push(
                views(self.entries@)[i as int],
            ));
            i += 1;
        }
        assert(views(self.entries@).take(i as int) =~= views(self.entries@));
        NameMap { entries }
    }
}

} // verus!
