//! A map keyed by strings, kept as a list of entries in the order in which
//! their keys first came.
//!
//! It stands where a hash map with string keys would: of such a map vstd
//! proves something only for keys whose hashing it knows, and strings are
//! not among them.

use crate::text::str_equal;
use vstd::prelude::*;

verus! {

/// A finite map from strings to values of type `V`.
///
/// No key occurs twice among the entries; a key that is inserted again keeps
/// its place and takes the new value.
#[derive(Clone, Debug)]
pub struct StringMap<V> {
    entries: Vec<(String, V)>,
}

/// The key of the entry at `i`.
pub open spec fn key_at<V>(entries: Seq<(String, V)>, i: int) -> Seq<char> {
    entries[i].0@
}

/// No two entries have the same key.
pub open spec fn keys_distinct<V>(entries: Seq<(String, V)>) -> bool {
    forall|i: int, j: int|
        0 <= i < j < entries.len() ==> #[trigger] key_at(entries, i) != #[trigger] key_at(
            entries,
            j,
        )
}

/// The map that a list of entries stands for: a later entry replaces an
/// earlier one with the same key.
pub open spec fn map_of<V>(entries: Seq<(String, V)>) -> Map<Seq<char>, V>
    decreases entries.len(),
{
    if entries.len() == 0 {
        Map::empty()
    } else {
        map_of(entries.drop_last()).insert(entries.last().0@, entries.last().1)
    }
}

/// The keys of `map_of(entries)` are the keys of the entries, and with
/// distinct keys every entry is found under its key.
pub proof fn lemma_map_of<V>(entries: Seq<(String, V)>)
    ensures
        forall|k: Seq<char>|
            map_of(entries).contains_key(k) <==> exists|i: int|
                0 <= i < entries.len() && #[trigger] key_at(entries, i) == k,
        keys_distinct(entries) ==> forall|i: int|
            0 <= i < entries.len() ==> map_of(entries)[#[trigger] key_at(entries, i)]
                == entries[i].1,
        map_of(entries).dom().finite(),
        keys_distinct(entries) ==> map_of(entries).dom().len() == entries.len(),
    decreases entries.len(),
{
    if entries.len() > 0 {
        let init = entries.drop_last();
        let last = entries.len() - 1;
        lemma_map_of(init);
        assert forall|i: int| 0 <= i < init.len() implies key_at(init, i) == key_at(
            entries,
            i,
        ) by {}
        assert forall|k: Seq<char>|
            map_of(entries).contains_key(k) <==> exists|i: int|
                0 <= i < entries.len() && #[trigger] key_at(entries, i) == k by {
            if map_of(entries).contains_key(k) {
                if k == entries.last().0@ {
                    assert(key_at(entries, last) == k);
                } else {
                    assert(map_of(init).contains_key(k));
                    let i = choose|i: int| 0 <= i < init.len() && #[trigger] key_at(init, i) == k;
                    assert(key_at(entries, i) == k);
                }
            }
            if exists|i: int| 0 <= i < entries.len() && #[trigger] key_at(entries, i) == k {
                let i = choose|i: int| 0 <= i < entries.len() && #[trigger] key_at(entries, i) == k;
                if i < last {
                    assert(key_at(init, i) == k);
                }
            }
        }
        if keys_distinct(entries) {
            assert(keys_distinct(init)) by {
                assert forall|i: int, j: int| 0 <= i < j < init.len() implies #[trigger] key_at(
                    init,
                    i,
                ) != #[trigger] key_at(init, j) by {
                    assert(key_at(entries, i) != key_at(entries, j));
                }
            }
            assert forall|i: int| 0 <= i < entries.len() implies map_of(entries)[#[trigger] key_at(
                entries,
                i,
            )] == entries[i].1 by {
                if i < last {
                    assert(key_at(entries, i) != key_at(entries, last));
                    assert(key_at(init, i) == key_at(entries, i));
                    assert(init[i] == entries[i]);
                }
            }
            assert(!map_of(init).contains_key(entries.last().0@)) by {
                if map_of(init).contains_key(entries.last().0@) {
                    let i = choose|i: int|
                        0 <= i < init.len() && #[trigger] key_at(init, i) == entries.last().0@;
                    assert(key_at(entries, i) != key_at(entries, last));
                }
            }
        }
    }
}

/// The map with each value as the text that it holds.
pub open spec fn texts(m: Map<Seq<char>, String>) -> Map<Seq<char>, Seq<char>> {
    Map::new(|k: Seq<char>| m.contains_key(k), |k: Seq<char>| m[k]@)
}

pub proof fn lemma_texts_insert(m: Map<Seq<char>, String>, key: Seq<char>, value: String)
    ensures
        texts(m.insert(key, value)) == texts(m).insert(key, value@),
{
    assert(texts(m.insert(key, value)) =~= texts(m).insert(key, value@));
}

/// The value of a key is that of the last entry that has the key.
pub proof fn lemma_map_of_last<V>(entries: Seq<(String, V)>, i: int)
    requires
        0 <= i < entries.len(),
        forall|j: int| i < j < entries.len() ==> #[trigger] key_at(entries, j) != key_at(entries, i),
    ensures
        map_of(entries).contains_key(key_at(entries, i)),
        map_of(entries)[key_at(entries, i)] == entries[i].1,
    decreases entries.len(),
{
    let last = entries.len() - 1;
    if i < last {
        let init = entries.drop_last();
        assert(key_at(entries, last) != key_at(entries, i));
        assert forall|j: int| i < j < init.len() implies #[trigger] key_at(init, j) != key_at(
            init,
            i,
        ) by {
            assert(key_at(entries, j) != key_at(entries, i));
        }
        assert(key_at(init, i) == key_at(entries, i));
        lemma_map_of_last(init, i);
    }
}

/// A new value for the last entry that has a key is a new value for the key.
pub proof fn lemma_map_of_update<V>(entries: Seq<(String, V)>, i: int, key: String, value: V)
    requires
        0 <= i < entries.len(),
        key_at(entries, i) == key@,
        forall|j: int| i < j < entries.len() ==> #[trigger] key_at(entries, j) != key@,
    ensures
        map_of(entries.update(i, (key, value))) == map_of(entries).insert(key@, value),
    decreases entries.len(),
{
    let after = entries.update(i, (key, value));
    let last = entries.len() - 1;
    let init = entries.drop_last();
    if i == last {
        assert(after.drop_last() == init);
        assert(map_of(after) =~= map_of(entries).insert(key@, value));
    } else {
        assert(key_at(entries, last) != key@);
        assert forall|j: int| i < j < init.len() implies #[trigger] key_at(init, j) != key@ by {
            assert(key_at(entries, j) != key@);
        }
        assert(key_at(init, i) == key@);
        lemma_map_of_update(init, i, key, value);
        assert(after.drop_last() == init.update(i, (key, value)));
        assert(after.last() == entries.last());
        assert(map_of(after) =~= map_of(entries).insert(key@, value));
    }
}

impl<V> StringMap<V> {
    /// No key occurs twice among the entries. It holds of every map that
    /// `new` and `insert` have made.
    pub closed spec fn wf(&self) -> bool {
        keys_distinct(self.entries@)
    }

    /// The map from keys to values.
    pub closed spec fn view(&self) -> Map<Seq<char>, V> {
        map_of(self.entries@)
    }

    /// The entries in the order in which their keys first came.
    pub closed spec fn entries_view(&self) -> Seq<(String, V)> {
        self.entries@
    }

    /// The empty map.
    pub fn new() -> (m: Self)
        ensures
            m.wf(),
            m@ == Map::<Seq<char>, V>::empty(),
            m.entries_view().len() == 0,
    {
        StringMap { entries: Vec::new() }
    }

    /// The number of entries, which is the number of keys.
    pub fn len(&self) -> (n: usize)
        ensures
            n == self.entries_view().len(),
            self@ == map_of(self.entries_view()),
            self@.dom().finite(),
            self.wf() ==> n == self@.dom().len() && keys_distinct(self.entries_view()),
    {
        proof {
            lemma_map_of(self.entries@);
        }
        self.entries.len()
    }

    /// The place of the last entry with the key `key`, if there is one.
    fn position(&self, key: &str) -> (r: Option<usize>)
        ensures
            match r {
                Some(i) => i < self.entries@.len() && key_at(self.entries@, i as int) == key@
                    && forall|j: int|
                    i < j < self.entries@.len() ==> #[trigger] key_at(self.entries@, j) != key@,
                None => forall|j: int|
                    0 <= j < self.entries@.len() ==> #[trigger] key_at(self.entries@, j) != key@,
            },
    {
        let mut i: usize = self.entries.len();
        while i > 0
            invariant
                i <= self.entries@.len(),
                forall|j: int|
                    i <= j < self.entries@.len() ==> #[trigger] key_at(self.entries@, j) != key@,
            decreases i,
        {
            i -= 1;
            if str_equal(self.entries[i].0.as_str(), key) {
                return Some(i);
            }
        }
        None
    }

    /// Whether `key` has a value.
    pub fn contains_key(&self, key: &str) -> (b: bool)
        ensures
            b == self@.contains_key(key@),
    {
        proof {
            lemma_map_of(self.entries@);
        }
        self.position(key).is_some()
    }

    /// The value of `key`, if it has one.
    pub fn get(&self, key: &str) -> (r: Option<&V>)
        ensures
            match r {
                Some(v) => self@.contains_key(key@) && *v == self@[key@],
                None => !self@.contains_key(key@),
            },
    {
        proof {
            lemma_map_of(self.entries@);
        }
        match self.position(key) {
            Some(i) => {
                proof {
                    lemma_map_of_last(self.entries@, i as int);
                }
                Some(&self.entries[i].1)
            },
            None => None,
        }
    }

    /// Gives `key` the value `value`, in place of the one it had, if any.
    pub fn insert(&mut self, key: String, value: V)
        ensures
            final(self)@ == old(self)@.insert(key@, value),
            old(self).wf() ==> final(self).wf(),
    {
        let ghost before = self.entries@;
        match self.position(key.as_str()) {
            Some(i) => {
                proof {
                    lemma_map_of_update(before, i as int, key, value);
                }
                self.entries.set(i, (key, value));
                proof {
                    let after = self.entries@;
                    assert forall|a: int| 0 <= a < after.len() implies key_at(after, a) == key_at(
                        before,
                        a,
                    ) by {}
                    if keys_distinct(before) {
                        assert forall|a: int, b: int|
                            0 <= a < b < after.len() implies #[trigger] key_at(after, a)
                            != #[trigger] key_at(after, b) by {
                            assert(key_at(before, a) != key_at(before, b));
                        }
                    }
                }
            },
            None => {
                let ghost k = key@;
                self.entries.push((key, value));
                proof {
                    let after = self.entries@;
                    assert(after.drop_last() == before);
                    if keys_distinct(before) {
                        assert forall|a: int, b: int|
                            0 <= a < b < after.len() implies #[trigger] key_at(after, a)
                            != #[trigger] key_at(after, b) by {
                            if b < before.len() {
                                assert(key_at(before, a) != key_at(before, b));
                            } else {
                                assert(key_at(before, a) != k);
                                assert(key_at(after, a) == key_at(before, a));
                                assert(key_at(after, b) == k);
                            }
                        }
                    }
                }
            },
        }
    }

    /// The entry at `i`, in the order in which the keys first came.
    pub fn entry(&self, i: usize) -> (r: (&String, &V))
        requires
            i < self.entries_view().len(),
        ensures
            *r.0 == self.entries_view()[i as int].0,
            *r.1 == self.entries_view()[i as int].1,
    {
        (&self.entries[i].0, &self.entries[i].1)
    }
}

impl StringMap<String> {
    /// Whether every key of this map has a value in `other`, with the same
    /// text as here.
    fn covered_by(&self, other: &Self) -> (b: bool)
        ensures
            b == forall|k: Seq<char>|
                self@.contains_key(k) ==> other@.contains_key(k) && other@[k]@ == self@[k]@,
    {
        proof {
            lemma_map_of(self.entries@);
        }
        let mut i: usize = 0;
        while i < self.entries.len()
            invariant
                i <= self.entries@.len(),
                forall|j: int|
                    0 <= j < i ==> other@.contains_key(#[trigger] key_at(self.entries@, j))
                        && other@[key_at(self.entries@, j)]@ == self@[key_at(self.entries@, j)]@,
                forall|k: Seq<char>|
                    self@.contains_key(k) <==> exists|j: int|
                        0 <= j < self.entries@.len() && #[trigger] key_at(self.entries@, j) == k,
            decreases self.entries@.len() - i,
        {
            let key = self.entries[i].0.as_str();
            assert(key@ == key_at(self.entries@, i as int));
            match (self.get(key), other.get(key)) {
                (Some(here), Some(there)) => {
                    if !(*here == *there) {
                        return false;
                    }
                },
                (_, _) => {
                    return false;
                },
            }
            i += 1;
        }
        assert forall|k: Seq<char>| self@.contains_key(k) implies other@.contains_key(k)
            && other@[k]@ == self@[k]@ by {
            let j = choose|j: int|
                0 <= j < self.entries@.len() && #[trigger] key_at(self.entries@, j) == k;
            assert(other@.contains_key(key_at(self.entries@, j)));
        }
        true
    }
}

impl PartialEq for StringMap<String> {
    /// Whether the two maps hold the same keys with the same texts, in
    /// whatever order.
    fn eq(&self, other: &Self) -> (r: bool) {
        let r = self.covered_by(other) && other.covered_by(self);
        proof {
            if r {
                assert(texts(self@) =~= texts(other@));
            } else if texts(self@) == texts(other@) {
                assert forall|k: Seq<char>| self@.contains_key(k) implies other@.contains_key(k)
                    && other@[k]@ == self@[k]@ by {
                    assert(texts(self@).contains_key(k));
                    assert(texts(other@).contains_key(k));
                    assert(texts(self@)[k] == texts(other@)[k]);
                }
                assert forall|k: Seq<char>| other@.contains_key(k) implies self@.contains_key(k)
                    && self@[k]@ == other@[k]@ by {
                    assert(texts(other@).contains_key(k));
                    assert(texts(self@).contains_key(k));
                    assert(texts(self@)[k] == texts(other@)[k]);
                }
            }
        }
        r
    }
}

impl vstd::std_specs::cmp::PartialEqSpecImpl for StringMap<String> {
    open spec fn obeys_eq_spec() -> bool {
        true
    }

    open spec fn eq_spec(&self, other: &Self) -> bool {
        texts(self@) == texts(other@)
    }
}

} // verus!
