//! A small map from strings to strings, kept as a list of entries in which no
//! key occurs twice.

use crate::text::str_equal;
use vstd::prelude::*;

verus! {

/// The map that a sequence of key-value pairs stands for: a later pair
/// overrides an earlier one with the same key.
pub open spec fn map_of(entries: Seq<(String, String)>) -> Map<Seq<char>, Seq<char>>
    decreases entries.len(),
{
    if entries.len() == 0 {
        Map::empty()
    } else {
        map_of(entries.drop_last()).insert(entries.last().0@, entries.last().1@)
    }
}

/// No key occurs at two places of the sequence.
pub open spec fn distinct_keys(entries: Seq<(String, String)>) -> bool {
    forall|i: int, j: int| 0 <= i < j < entries.len() ==> entries[i].0@ != entries[j].0@
}

/// The keys of `map_of(entries)` are the keys of the pairs, and where the keys
/// are distinct each pair gives the value of its key.
pub proof fn lemma_map_of(entries: Seq<(String, String)>)
    ensures
        forall|k: Seq<char>| #[trigger]
            map_of(entries).contains_key(k) <==> exists|i: int|
                0 <= i < entries.len() && #[trigger] entries[i].0@ == k,
        distinct_keys(entries) ==> forall|i: int|
            0 <= i < entries.len() ==> map_of(entries)[#[trigger] entries[i].0@] == entries[i].1@,
        map_of(entries).dom().finite(),
        distinct_keys(entries) ==> map_of(entries).dom().len() == entries.len(),
    decreases entries.len(),
{
    if entries.len() > 0 {
        let front = entries.drop_last();
        let last = entries.last();
        lemma_map_of(front);
        assert forall|k: Seq<char>| #[trigger]
            map_of(entries).contains_key(k) implies exists|i: int|
            0 <= i < entries.len() && #[trigger] entries[i].0@ == k by {
            if k == last.0@ {
                assert(entries[entries.len() - 1].0@ == k);
            } else {
                assert(map_of(front).contains_key(k));
                let i = choose|i: int| 0 <= i < front.len() && #[trigger] front[i].0@ == k;
                assert(entries[i].0@ == k);
            }
        }
        assert forall|k: Seq<char>|
            (exists|i: int|
                0 <= i < entries.len() && #[trigger] entries[i].0@ == k) implies #[trigger]
            map_of(entries).contains_key(k) by {
            let i = choose|i: int| 0 <= i < entries.len() && #[trigger] entries[i].0@ == k;
            if i < front.len() {
                assert(front[i].0@ == k);
            }
        }
        if distinct_keys(entries) {
            assert(distinct_keys(front)) by {
                assert forall|i: int, j: int| 0 <= i < j < front.len() implies front[i].0@
                    != front[j].0@ by {
                    assert(entries[i].0@ != entries[j].0@);
                }
            }
            assert(!map_of(front).contains_key(last.0@)) by {
                if map_of(front).contains_key(last.0@) {
                    let i = choose|i: int|
                        0 <= i < front.len() && #[trigger] front[i].0@ == last.0@;
                    assert(entries[i].0@ == entries[entries.len() - 1].0@);
                }
            }
            assert forall|i: int| 0 <= i < entries.len() implies map_of(entries)[#[trigger] entries[
                i
            ].0@] == entries[i].1@ by {
                if i < front.len() {
                    assert(front[i].0@ == entries[i].0@);
                    assert(entries[i].0@ != entries[entries.len() - 1].0@);
                }
            }
        }
    }
}

/// Replacing the value at one place of a sequence with distinct keys binds
/// that place's key anew and leaves the other keys as they were.
proof fn lemma_replace_value(before: Seq<(String, String)>, i: int, pair: (String, String))
    requires
        distinct_keys(before),
        0 <= i < before.len(),
        pair.0@ == before[i].0@,
    ensures
        distinct_keys(before.update(i, pair)),
        map_of(before.update(i, pair)) == map_of(before).insert(pair.0@, pair.1@),
{
    let after = before.update(i, pair);
    assert(distinct_keys(after)) by {
        assert forall|a: int, b: int| 0 <= a < b < after.len() implies after[a].0@
            != after[b].0@ by {
            assert(before[a].0@ != before[b].0@);
        }
    }
    lemma_map_of(before);
    lemma_map_of(after);
    let target = map_of(before).insert(pair.0@, pair.1@);
    assert forall|k: Seq<char>| map_of(after).contains_key(k) <==> target.contains_key(k) by {
        if map_of(after).contains_key(k) {
            let j = choose|j: int| 0 <= j < after.len() && #[trigger] after[j].0@ == k;
            assert(before[j].0@ == k);
        }
        if map_of(before).contains_key(k) {
            let j = choose|j: int| 0 <= j < before.len() && #[trigger] before[j].0@ == k;
            assert(after[j].0@ == k);
        }
        if k == pair.0@ {
            assert(after[i].0@ == k);
        }
    }
    assert forall|k: Seq<char>| map_of(after).contains_key(k) implies map_of(after)[k]
        == target[k] by {
        let j = choose|j: int| 0 <= j < after.len() && #[trigger] after[j].0@ == k;
        assert(map_of(after)[after[j].0@] == after[j].1@);
        if j != i {
            assert(before[j].0@ != before[i].0@) by {
                if j < i {
                    assert(before[j].0@ != before[i].0@);
                } else {
                    assert(before[i].0@ != before[j].0@);
                }
            }
            assert(map_of(before)[before[j].0@] == before[j].1@);
        }
    }
    assert(map_of(after) =~= target);
}

/// Appending a pair whose key is new keeps the keys distinct and binds the key.
proof fn lemma_append_key(before: Seq<(String, String)>, pair: (String, String))
    requires
        distinct_keys(before),
        forall|i: int| 0 <= i < before.len() ==> before[i].0@ != pair.0@,
    ensures
        distinct_keys(before.push(pair)),
        map_of(before.push(pair)) == map_of(before).insert(pair.0@, pair.1@),
{
    let after = before.push(pair);
    assert(after.drop_last() =~= before);
    assert forall|a: int, b: int| 0 <= a < b < after.len() implies after[a].0@
        != after[b].0@ by {
        if b < before.len() {
            assert(before[a].0@ != before[b].0@);
        } else {
            assert(before[a].0@ != pair.0@);
        }
    }
}

/// A finite map from strings to strings.
///
/// The map is kept as a list of entries, and no key occurs twice among them.
#[derive(Debug)]
pub struct StringMap {
    entries: Vec<(String, String)>,
}

impl View for StringMap {
    type V = Map<Seq<char>, Seq<char>>;

    closed spec fn view(&self) -> Map<Seq<char>, Seq<char>> {
        map_of(self.entries@)
    }
}

impl StringMap {
    #[verifier::type_invariant]
    spec fn well_formed(&self) -> bool {
        distinct_keys(self.entries@)
    }

    /// The empty map.
    pub fn new() -> (map: StringMap)
        ensures
            map@ == Map::<Seq<char>, Seq<char>>::empty(),
    {
        StringMap { entries: Vec::new() }
    }

    /// The place of `key` among the entries, if it has one.
    fn position(&self, key: &str) -> (place: Option<usize>)
        ensures
            match place {
                Some(i) => i < self.entries@.len() && self.entries@[i as int].0@ == key@,
                None => forall|i: int|
                    0 <= i < self.entries@.len() ==> self.entries@[i].0@ != key@,
            },
    {
        let mut i: usize = 0;
        while i < self.entries.len()
            invariant
                i <= self.entries@.len(),
                forall|j: int| 0 <= j < i ==> self.entries@[j].0@ != key@,
            decreases self.entries@.len() - i,
        {
            if str_equal(self.entries[i].0.as_str(), key) {
                return Some(i);
            }
            i += 1;
        }
        None
    }

    /// Binds `key` to `value`, replacing the value that `key` had.
    pub fn insert(&mut self, key: String, value: String)
        ensures
            final(self)@ == old(self)@.insert(key@, value@),
    {
        proof {
            use_type_invariant(&*self);
        }
        let place = self.position(key.as_str());
        let mut entries: Vec<(String, String)> = Vec::new();
        core::mem::swap(&mut entries, &mut self.entries);
        let ghost before = entries@;
        match place {
            Some(i) => {
                entries.set(i, (key, value));
                proof {
                    lemma_replace_value(before, i as int, entries@[i as int]);
                }
            },
            None => {
                entries.push((key, value));
                proof {
                    lemma_append_key(before, entries@.last());
                }
            },
        }
        core::mem::swap(&mut entries, &mut self.entries);
    }

    /// The value bound to `key`, if there is one.
    pub fn get(&self, key: &str) -> (value: Option<&String>)
        ensures
            match value {
                Some(v) => self@.contains_key(key@) && v@ == self@[key@],
                None => !self@.contains_key(key@),
            },
    {
        proof {
            use_type_invariant(self);
            lemma_map_of(self.entries@);
        }
        match self.position(key) {
            Some(i) => {
                assert(self.entries@[i as int].0@ == key@);
                Some(&self.entries[i].1)
            },
            None => None,
        }
    }

    /// Whether `key` is bound.
    pub fn contains_key(&self, key: &str) -> (found: bool)
        ensures
            found == self@.contains_key(key@),
    {
        self.get(key).is_some()
    }

    /// The number of keys.
    pub fn len(&self) -> (n: usize)
        ensures
            self@.dom().finite(),
            n == self@.dom().len(),
    {
        proof {
            use_type_invariant(self);
            lemma_map_of(self.entries@);
        }
        self.entries.len()
    }

    /// Whether the map has no key.
    pub fn is_empty(&self) -> (empty: bool)
        ensures
            empty == (self@ == Map::<Seq<char>, Seq<char>>::empty()),
    {
        proof {
            use_type_invariant(self);
            lemma_map_of(self.entries@);
            if self.entries@.len() > 0 {
                assert(map_of(self.entries@).contains_key(self.entries@[0].0@));
            }
        }
        self.entries.len() == 0
    }

    /// The entries of the map, each key once.
    pub fn entries(&self) -> (pairs: &Vec<(String, String)>)
        ensures
            map_of(pairs@) == self@,
            distinct_keys(pairs@),
    {
        proof {
            use_type_invariant(self);
        }
        &self.entries
    }
}

} // verus!
