//! A small map from text to text that remembers the order of insertion.

use crate::text::same_text;
use vstd::prelude::*;

verus! {

/// The map that a list of key-value pairs stands for: each pair is
/// inserted in turn, so of two pairs with one key the later one counts.
pub open spec fn pairs_map(pairs: Seq<(Seq<char>, Seq<char>)>) -> Map<Seq<char>, Seq<char>>
    decreases pairs.len(),
{
    if pairs.len() == 0 {
        Map::empty()
    } else {
        pairs_map(pairs.drop_last()).insert(pairs.last().0, pairs.last().1)
    }
}

/// No key occurs in two pairs.
pub open spec fn keys_distinct(pairs: Seq<(Seq<char>, Seq<char>)>) -> bool {
    forall|i: int, j: int|
        0 <= i < pairs.len() && 0 <= j < pairs.len() && i != j ==> pairs[i].0 != pairs[j].0
}

/// The index of the pair with key `key`, as far as there is one.
pub open spec fn has_key_at(pairs: Seq<(Seq<char>, Seq<char>)>, key: Seq<char>, i: int) -> bool {
    0 <= i < pairs.len() && pairs[i].0 == key
}

/// The keys of the map are the keys of the pairs.
pub proof fn lemma_pairs_map_dom(pairs: Seq<(Seq<char>, Seq<char>)>, key: Seq<char>)
    ensures
        pairs_map(pairs).dom().contains(key) <==> exists|i: int| has_key_at(pairs, key, i),
    decreases pairs.len(),
{
    if pairs.len() > 0 {
        let init = pairs.drop_last();
        lemma_pairs_map_dom(init, key);
        if pairs_map(pairs).dom().contains(key) {
            if pairs.last().0 == key {
                assert(has_key_at(pairs, key, pairs.len() - 1));
            } else {
                let i = choose|i: int| has_key_at(init, key, i);
                assert(has_key_at(pairs, key, i));
            }
        }
        if exists|i: int| has_key_at(pairs, key, i) {
            let i = choose|i: int| has_key_at(pairs, key, i);
            if i < pairs.len() - 1 {
                assert(has_key_at(init, key, i));
            }
        }
    }
}

/// Where no key occurs twice, the map gives each pair's key its value.
pub proof fn lemma_pairs_map_value(pairs: Seq<(Seq<char>, Seq<char>)>, i: int)
    requires
        keys_distinct(pairs),
        0 <= i < pairs.len(),
    ensures
        pairs_map(pairs).dom().contains(pairs[i].0),
        pairs_map(pairs)[pairs[i].0] == pairs[i].1,
    decreases pairs.len(),
{
    if i < pairs.len() - 1 {
        let init = pairs.drop_last();
        assert(keys_distinct(init)) by {
            assert forall|a: int, b: int|
                0 <= a < init.len() && 0 <= b < init.len() && a != b implies init[a].0
                != init[b].0 by {
                assert(pairs[a].0 != pairs[b].0);
            }
        }
        lemma_pairs_map_value(init, i);
        assert(pairs[i].0 != pairs[pairs.len() - 1].0);
    }
}

/// Replacing the value of the pair that holds a key is inserting into the
/// map.
pub proof fn lemma_pairs_map_update(
    pairs: Seq<(Seq<char>, Seq<char>)>,
    i: int,
    value: Seq<char>,
)
    requires
        keys_distinct(pairs),
        0 <= i < pairs.len(),
    ensures
        pairs_map(pairs.update(i, (pairs[i].0, value))) == pairs_map(pairs).insert(
            pairs[i].0,
            value,
        ),
        keys_distinct(pairs.update(i, (pairs[i].0, value))),
    decreases pairs.len(),
{
    let next = pairs.update(i, (pairs[i].0, value));
    let init = pairs.drop_last();
    assert(keys_distinct(init)) by {
        assert forall|a: int, b: int|
            0 <= a < init.len() && 0 <= b < init.len() && a != b implies init[a].0 != init[b].0 by {
            assert(pairs[a].0 != pairs[b].0);
        }
    }
    assert(keys_distinct(next)) by {
        assert forall|a: int, b: int|
            0 <= a < next.len() && 0 <= b < next.len() && a != b implies next[a].0 != next[b].0 by {
            assert(pairs[a].0 != pairs[b].0);
        }
    }
    if i == pairs.len() - 1 {
        assert(next.drop_last() == init);
        assert(pairs_map(next) =~= pairs_map(pairs).insert(pairs[i].0, value));
    } else {
        lemma_pairs_map_update(init, i, value);
        assert(next.drop_last() == init.update(i, (pairs[i].0, value)));
        assert(pairs[i].0 != pairs[pairs.len() - 1].0);
        assert(pairs_map(next) =~= pairs_map(pairs).insert(pairs[i].0, value));
    }
}

/// The views of stored pairs.
pub open spec fn pairs_of(entries: Seq<(String, String)>) -> Seq<(Seq<char>, Seq<char>)> {
    Seq::new(entries.len(), |i: int| (entries[i].0@, entries[i].1@))
}

/// A map from text to text. Each key occurs once; the pairs keep the order
/// in which their keys were first inserted.
#[derive(Debug)]
pub struct StringMap {
    entries: Vec<(String, String)>,
}

impl View for StringMap {
    type V = Map<Seq<char>, Seq<char>>;

    open spec fn view(&self) -> Map<Seq<char>, Seq<char>> {
        pairs_map(self.pairs())
    }
}

impl StringMap {
    /// The pairs of the map, in the order of first insertion.
    pub closed spec fn pairs(&self) -> Seq<(Seq<char>, Seq<char>)> {
        pairs_of(self.entries@)
    }

    #[verifier::type_invariant]
    spec fn distinct(&self) -> bool {
        keys_distinct(self.pairs())
    }

    /// Recalls that no key occurs in two pairs of a map. It computes
    /// nothing.
    pub fn recall_keys_distinct(&self)
        ensures
            keys_distinct(self.pairs()),
    {
        proof {
            use_type_invariant(self);
        }
    }

    /// A map without pairs.
    pub fn new() -> (m: StringMap)
        ensures
            m.pairs() == Seq::<(Seq<char>, Seq<char>)>::empty(),
            m@ == Map::<Seq<char>, Seq<char>>::empty(),
    {
        let entries: Vec<(String, String)> = Vec::new();
        assert(pairs_of(entries@) =~= Seq::<(Seq<char>, Seq<char>)>::empty());
        StringMap { entries }
    }

    /// The number of pairs.
    pub fn len(&self) -> (n: usize)
        ensures
            n == self.pairs().len(),
    {
        self.entries.len()
    }

    /// Whether the map has no pairs.
    pub fn is_empty(&self) -> (r: bool)
        ensures
            r == (self.pairs().len() == 0),
    {
        self.entries.len() == 0
    }

    /// The key of the pair at `i`.
    pub fn key_at(&self, i: usize) -> (key: &String)
        requires
            i < self.pairs().len(),
        ensures
            key@ == self.pairs()[i as int].0,
    {
        &self.entries[i].0
    }

    /// The value of the pair at `i`.
    pub fn value_at(&self, i: usize) -> (value: &String)
        requires
            i < self.pairs().len(),
        ensures
            value@ == self.pairs()[i as int].1,
    {
        &self.entries[i].1
    }

    /// The index of the pair with key `key`.
    fn position(&self, key: &str) -> (r: Option<usize>)
        ensures
            match r {
                Some(i) => has_key_at(self.pairs(), key@, i as int),
                None => forall|i: int| !has_key_at(self.pairs(), key@, i),
            },
    {
        let mut i: usize = 0;
        while i < self.entries.len()
            invariant
                i <= self.entries.len(),
                forall|j: int| 0 <= j < i ==> !has_key_at(self.pairs(), key@, j),
            decreases self.entries.len() - i,
        {
            if same_text(self.entries[i].0.as_str(), key) {
                return Some(i);
            }
            i += 1;
        }
        None
    }

    /// Whether the map holds `key`.
    pub fn contains_key(&self, key: &str) -> (r: bool)
        ensures
            r == self@.dom().contains(key@),
    {
        proof {
            lemma_pairs_map_dom(self.pairs(), key@);
        }
        self.position(key).is_some()
    }

    /// The value that the map gives `key`, if it holds the key.
    pub fn get(&self, key: &str) -> (r: Option<&String>)
        ensures
            match r {
                Some(value) => self@.dom().contains(key@) && self@[key@] == value@,
                None => !self@.dom().contains(key@),
            },
    {
        proof {
            lemma_pairs_map_dom(self.pairs(), key@);
            use_type_invariant(self);
        }
        match self.position(key) {
            Some(i) => {
                proof {
                    lemma_pairs_map_value(self.pairs(), i as int);
                }
                Some(&self.entries[i].1)
            },
            None => None,
        }
    }

    /// Gives `key` the value `value`. A key that the map already holds keeps
    /// its place among the pairs; a new key goes to the end.
    pub fn insert(&mut self, key: String, value: String)
        ensures
            final(self)@ == old(self)@.insert(key@, value@),
            forall|i: int|
                has_key_at(old(self).pairs(), key@, i) ==> final(self).pairs() == old(
                    self,
                ).pairs().update(i, (key@, value@)),
            !old(self)@.dom().contains(key@) ==> final(self).pairs() == old(self).pairs().push(
                (key@, value@),
            ),
    {
        proof {
            lemma_pairs_map_dom(self.pairs(), key@);
            use_type_invariant(&*self);
        }
        let ghost before = self.pairs();
        let found = self.position(key.as_str());
        let mut taken = StringMap::new();
        core::mem::swap(self, &mut taken);
        let mut entries = taken.entries;
        match found {
            Some(i) => {
                proof {
                    lemma_pairs_map_update(before, i as int, value@);
                }
                entries.set(i, (key, value));
                assert(pairs_of(entries@) =~= before.update(
                    i as int,
                    (before[i as int].0, value@),
                ));
                *self = StringMap { entries };
            },
            None => {
                let ghost next = before.push((key@, value@));
                assert(keys_distinct(next)) by {
                    assert forall|a: int, b: int|
                        0 <= a < next.len() && 0 <= b < next.len() && a != b implies next[a].0
                        != next[b].0 by {
                        if a < before.len() && b < before.len() {
                            assert(before[a].0 != before[b].0);
                        } else if a < before.len() {
                            assert(!has_key_at(before, key@, a));
                        } else {
                            assert(!has_key_at(before, key@, b));
                        }
                    }
                }
                assert(next.drop_last() =~= before);
                entries.push((key, value));
                assert(pairs_of(entries@) =~= next);
                *self = StringMap { entries };
            },
        }
    }

    /// A copy of the map.
    pub fn copy(&self) -> (m: StringMap)
        ensures
            m.pairs() == self.pairs(),
            m@ == self@,
    {
        let mut entries: Vec<(String, String)> = Vec::new();
        let mut i: usize = 0;
        while i < self.entries.len()
            invariant
                i <= self.entries.len(),
                entries.len() == i,
                forall|j: int|
                    0 <= j < i ==> (#[trigger] entries@[j]).0@ == self.entries@[j].0@
                        && entries@[j].1@ == self.entries@[j].1@,
            decreases self.entries.len() - i,
        {
            entries.push((self.entries[i].0.clone(), self.entries[i].1.clone()));
            i += 1;
        }
        proof {
            use_type_invariant(self);
            assert(pairs_of(entries@) =~= self.pairs());
        }
        StringMap { entries }
    }
}

} // verus!
