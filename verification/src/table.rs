//! A map from text to values that keeps its entries in the order in which the
//! keys came in.

use vstd::prelude::*;
use crate::text::same;

verus! {

/// Entries under distinct keys, oldest key first.
#[derive(Debug)]
pub struct Table<V> {
    entries: Vec<(String, V)>,
}

/// The keys of a row of entries.
pub open spec fn keys_of<V>(entries: Seq<(String, V)>) -> Seq<Seq<char>> {
    entries.map_values(|e: (String, V)| e.0@)
}

/// No key occurs twice.
pub open spec fn distinct<V>(entries: Seq<(String, V)>) -> bool {
    forall|i: int, j: int|
        0 <= i < j < entries.len() ==> #[trigger] entries[i].0@ != #[trigger] entries[j].0@
}

/// The value of each key.
pub open spec fn map_of<V>(entries: Seq<(String, V)>) -> Map<Seq<char>, V> {
    Map::new(
        |k: Seq<char>| exists|i: int| 0 <= i < entries.len() && #[trigger] entries[i].0@ == k,
        |k: Seq<char>|
            entries[choose|i: int| 0 <= i < entries.len() && #[trigger] entries[i].0@ == k].1,
    )
}

/// Under distinct keys the map gives each entry's value for its key.
proof fn lemma_map_at<V>(entries: Seq<(String, V)>, i: int)
    requires
        distinct(entries),
        0 <= i < entries.len(),
    ensures
        map_of(entries).contains_key(entries[i].0@),
        map_of(entries)[entries[i].0@] == entries[i].1,
{
    let k = entries[i].0@;
    assert(entries[i].0@ == k);
    let j = choose|j: int| 0 <= j < entries.len() && #[trigger] entries[j].0@ == k;
    assert(0 <= j < entries.len() && entries[j].0@ == k);
    if i < j {
        assert(entries[i].0@ != entries[j].0@);
    } else if j < i {
        assert(entries[j].0@ != entries[i].0@);
    }
}

/// Under distinct keys there are as many keys as entries.
proof fn lemma_map_len<V>(entries: Seq<(String, V)>)
    requires
        distinct(entries),
    ensures
        map_of(entries).dom().finite(),
        map_of(entries).len() == entries.len(),
{
    let keys = keys_of(entries);
    assert(keys.no_duplicates());
    keys.unique_seq_to_set();
    vstd::seq_lib::seq_to_set_is_finite(keys);
    assert forall|k: Seq<char>| map_of(entries).dom().contains(k) == keys.to_set().contains(k) by {
        if map_of(entries).dom().contains(k) {
            let i = choose|i: int| 0 <= i < entries.len() && #[trigger] entries[i].0@ == k;
            assert(keys[i] == k);
        }
        if keys.contains(k) {
            let i = choose|i: int| 0 <= i < keys.len() && keys[i] == k;
            assert(entries[i].0@ == k);
        }
    }
    assert(map_of(entries).dom() =~= keys.to_set());
}

impl<V> View for Table<V> {
    type V = Map<Seq<char>, V>;

    closed spec fn view(&self) -> Map<Seq<char>, V> {
        map_of(self.entries@)
    }
}

impl<V> Table<V> {
    #[verifier::type_invariant]
    spec fn keys_are_distinct(self) -> bool {
        distinct(self.entries@)
    }

    /// The entries, oldest key first.
    pub closed spec fn rows(&self) -> Seq<(String, V)> {
        self.entries@
    }

    pub fn new() -> (r: Self)
        ensures
            r@ == Map::<Seq<char>, V>::empty(),
            r.rows() == Seq::<(String, V)>::empty(),
    {
        let r = Table { entries: Vec::new() };
        assert(r@ =~= Map::empty());
        r
    }

    /// A map of entries under distinct keys.
    pub fn from_rows(rows: Vec<(String, V)>) -> (r: Self)
        requires
            distinct(rows@),
        ensures
            r@ == map_of(rows@),
            r.rows() == rows@,
    {
        Table { entries: rows }
    }

    /// What the entries say of the map.
    pub proof fn lemma_rows(&self)
        requires
            distinct(self.rows()),
        ensures
            self@ == map_of(self.rows()),
            forall|i: int|
                0 <= i < self.rows().len() ==> self@.contains_key(#[trigger] self.rows()[i].0@)
                    && self@[self.rows()[i].0@] == self.rows()[i].1,
            forall|k: Seq<char>|
                self@.contains_key(k) ==> exists|i: int|
                    0 <= i < self.rows().len() && #[trigger] self.rows()[i].0@ == k,
    {
        assert forall|i: int| 0 <= i < self.rows().len() implies self@.contains_key(
            #[trigger] self.rows()[i].0@,
        ) && self@[self.rows()[i].0@] == self.rows()[i].1 by {
            lemma_map_at(self.entries@, i);
        }
    }

    /// How many keys there are.
    pub fn len(&self) -> (n: usize)
        ensures
            n == self.rows().len(),
            n == self@.len(),
            self@.dom().finite(),
            distinct(self.rows()),
    {
        proof {
            use_type_invariant(self);
            lemma_map_len(self.entries@);
        }
        self.entries.len()
    }

    /// The key of entry `i`.
    pub fn key_at(&self, i: usize) -> (k: &str)
        requires
            i < self.rows().len(),
        ensures
            k@ == self.rows()[i as int].0@,
    {
        self.entries[i].0.as_str()
    }

    /// The value of entry `i`.
    pub fn value_at(&self, i: usize) -> (v: &V)
        requires
            i < self.rows().len(),
        ensures
            *v == self.rows()[i as int].1,
            self@.contains_key(self.rows()[i as int].0@),
            self@[self.rows()[i as int].0@] == *v,
    {
        proof {
            use_type_invariant(self);
            lemma_map_at(self.entries@, i as int);
        }
        &self.entries[i].1
    }

    fn find(&self, key: &str) -> (r: Option<usize>)
        ensures
            match r {
                Some(i) => i < self.entries@.len() && self.entries@[i as int].0@ == key@
                    && self@.contains_key(key@) && self@[key@] == self.entries@[i as int].1,
                None => !self@.contains_key(key@) && forall|j: int|
                    0 <= j < self.entries@.len() ==> #[trigger] self.entries@[j].0@ != key@,
            },
    {
        proof {
            use_type_invariant(self);
        }
        let mut i: usize = 0;
        while i < self.entries.len()
            invariant
                i <= self.entries@.len(),
                distinct(self.entries@),
                forall|j: int| 0 <= j < i ==> #[trigger] self.entries@[j].0@ != key@,
            decreases self.entries@.len() - i,
        {
            if same(self.entries[i].0.as_str(), key) {
                proof {
                    lemma_map_at(self.entries@, i as int);
                }
                return Some(i);
            }
            i += 1;
        }
        None
    }

    pub fn contains_key(&self, key: &str) -> (r: bool)
        ensures
            r == self@.contains_key(key@),
    {
        self.find(key).is_some()
    }

    pub fn get(&self, key: &str) -> (r: Option<&V>)
        ensures
            match r {
                Some(v) => self@.contains_key(key@) && *v == self@[key@],
                None => !self@.contains_key(key@),
            },
    {
        match self.find(key) {
            Some(i) => Some(&self.entries[i].1),
            None => None,
        }
    }

    /// Puts a value under a key, in place of the one that was there.
    pub fn insert(&mut self, key: String, value: V)
        ensures
            final(self)@ == old(self)@.insert(key@, value),
    {
        proof {
            use_type_invariant(&*self);
        }
        let ghost before = self.entries@;
        let found = self.find(key.as_str());
        let mut entries: Vec<(String, V)> = Vec::new();
        std::mem::swap(&mut entries, &mut self.entries);
        let ghost k = key@;
        match found {
            Some(i) => {
                entries.set(i, (key, value));
                proof {
                    assert(distinct(entries@));
                    assert forall|q: Seq<char>| #[trigger]
                        map_of(entries@).contains_key(q) == map_of(before).insert(
                            k,
                            value,
                        ).contains_key(q) by {
                        if map_of(entries@).contains_key(q) {
                            let j = choose|j: int|
                                0 <= j < entries@.len() && #[trigger] entries@[j].0@ == q;
                            assert(before[j].0@ == q);
                        }
                        if map_of(before).contains_key(q) {
                            let j = choose|j: int|
                                0 <= j < before.len() && #[trigger] before[j].0@ == q;
                            assert(entries@[j].0@ == q);
                        }
                        if q == k {
                            assert(entries@[i as int].0@ == k);
                        }
                    }
                    assert forall|q: Seq<char>| map_of(entries@).contains_key(q) implies #[trigger] map_of(
                        entries@,
                    )[q] == map_of(before).insert(k, value)[q] by {
                        let j = choose|j: int|
                            0 <= j < entries@.len() && #[trigger] entries@[j].0@ == q;
                        lemma_map_at(entries@, j);
                        lemma_map_at(before, j);
                        assert(before[j].0@ == q);
                    }
                    assert(map_of(entries@) =~= map_of(before).insert(k, value));
                }
            },
            None => {
                entries.push((key, value));
                proof {
                    assert(distinct(entries@));
                    assert forall|q: Seq<char>| #[trigger]
                        map_of(entries@).contains_key(q) == map_of(before).insert(
                            k,
                            value,
                        ).contains_key(q) by {
                        if map_of(entries@).contains_key(q) {
                            let j = choose|j: int|
                                0 <= j < entries@.len() && #[trigger] entries@[j].0@ == q;
                            if j < before.len() {
                                assert(before[j].0@ == q);
                            }
                        }
                        if map_of(before).contains_key(q) {
                            let j = choose|j: int|
                                0 <= j < before.len() && #[trigger] before[j].0@ == q;
                            assert(entries@[j].0@ == q);
                        }
                        if q == k {
                            assert(entries@[before.len() as int].0@ == k);
                        }
                    }
                    assert forall|q: Seq<char>| map_of(entries@).contains_key(q) implies #[trigger] map_of(
                        entries@,
                    )[q] == map_of(before).insert(k, value)[q] by {
                        let j = choose|j: int|
                            0 <= j < entries@.len() && #[trigger] entries@[j].0@ == q;
                        lemma_map_at(entries@, j);
                        if j < before.len() {
                            lemma_map_at(before, j);
                            assert(before[j].0@ == q);
                        }
                    }
                    assert(map_of(entries@) =~= map_of(before).insert(k, value));
                }
            },
        }
        self.entries = entries;
    }

    /// Takes everything out.
    pub fn clear(&mut self)
        ensures
            final(self)@ == Map::<Seq<char>, V>::empty(),
    {
        self.entries = Vec::new();
        assert(self@ =~= Map::empty());
    }

    /// Takes a key and its value out.
    pub fn remove(&mut self, key: &str) -> (r: Option<V>)
        ensures
            final(self)@ == old(self)@.remove(key@),
            match r {
                Some(v) => old(self)@.contains_key(key@) && v == old(self)@[key@],
                None => !old(self)@.contains_key(key@),
            },
    {
        proof {
            use_type_invariant(&*self);
        }
        let ghost before = self.entries@;
        match self.find(key) {
            None => {
                assert(self@ =~= self@.remove(key@));
                None
            },
            Some(i) => {
                let mut entries: Vec<(String, V)> = Vec::new();
                std::mem::swap(&mut entries, &mut self.entries);
                let (_, value) = entries.remove(i);
                proof {
                    let k = key@;
                    assert forall|a: int, b: int| 0 <= a < b < entries@.len() implies #[trigger] entries@[a].0@
                        != #[trigger] entries@[b].0@ by {
                        let a2 = if a < i { a } else { a + 1 };
                        let b2 = if b < i { b } else { b + 1 };
                        assert(before[a2].0@ != before[b2].0@);
                    }
                    assert forall|q: Seq<char>| #[trigger]
                        map_of(entries@).contains_key(q) == map_of(before).remove(k).contains_key(q) by {
                        if map_of(entries@).contains_key(q) {
                            let j = choose|j: int|
                                0 <= j < entries@.len() && #[trigger] entries@[j].0@ == q;
                            let j2 = if j < i { j } else { j + 1 };
                            assert(before[j2].0@ == q);
                            if j2 < i {
                                assert(before[j2].0@ != before[i as int].0@);
                            } else {
                                assert(before[i as int].0@ != before[j2].0@);
                            }
                        }
                        if map_of(before).remove(k).contains_key(q) {
                            let j = choose|j: int|
                                0 <= j < before.len() && #[trigger] before[j].0@ == q;
                            assert(j != i);
                            let j2 = if j < i { j } else { j - 1 };
                            assert(entries@[j2].0@ == q);
                        }
                    }
                    assert forall|q: Seq<char>| map_of(entries@).contains_key(q) implies #[trigger] map_of(
                        entries@,
                    )[q] == map_of(before).remove(k)[q] by {
                        let j = choose|j: int|
                            0 <= j < entries@.len() && #[trigger] entries@[j].0@ == q;
                        let j2 = if j < i { j } else { j + 1 };
                        lemma_map_at(entries@, j);
                        lemma_map_at(before, j2);
                        assert(before[j2].0@ == q);
                    }
                    assert(map_of(entries@) =~= map_of(before).remove(k));
                }
                self.entries = entries;
                Some(value)
            },
        }
    }
}

impl Table<String> {
    /// The same entries once more.
    pub fn duplicate(&self) -> (r: Self)
        ensures
            r@ == self@,
            r.rows() == self.rows(),
    {
        proof {
            use_type_invariant(self);
        }
        let mut entries: Vec<(String, String)> = Vec::new();
        let mut i: usize = 0;
        while i < self.entries.len()
            invariant
                i <= self.entries@.len(),
                entries@ == self.entries@.take(i as int),
            decreases self.entries@.len() - i,
        {
            entries.push((self.entries[i].0.clone(), self.entries[i].1.clone()));
            assert(entries@ =~= self.entries@.take(i + 1));
            i += 1;
        }
        assert(self.entries@.take(self.entries@.len() as int) =~= self.entries@);
        Table { entries }
    }

    /// The entries, oldest key first.
    pub fn to_rows(&self) -> (r: Vec<(String, String)>)
        ensures
            r@ == self.rows(),
            distinct(r@),
            self@ == map_of(r@),
    {
        proof {
            use_type_invariant(self);
        }
        let copy = self.duplicate();
        copy.entries
    }
}

} // verus!
