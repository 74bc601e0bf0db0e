//! A table of records keyed by package name and hash.
//!
//! The table keeps its records in the order in which their keys first came in
//! and holds every key at most once, so that it stands for a finite map.

use vstd::prelude::*;
use crate::text::str_eq;

verus! {

/// The key of a record, as text: package name and hash.
pub type Key = (Seq<char>, Seq<char>);

/// One record of a table, under its key.
pub struct Record<V> {
    pub name: String,
    pub hash: String,
    pub value: V,
}

impl<V> Record<V> {
    /// The key this record stands under.
    pub open spec fn key(self) -> Key {
        (self.name@, self.hash@)
    }
}

/// A table of records, each under a key of its own.
pub struct Library<V> {
    records: Vec<Record<V>>,
}

impl<V> View for Library<V> {
    type V = Map<Key, V>;

    /// The table as a map from keys to values.
    closed spec fn view(&self) -> Map<Key, V> {
        Map::new(
            |k: Key| self.keys().contains(k),
            |k: Key| self.records@[self.keys().index_of(k)].value,
        )
    }
}

impl<V> Library<V> {
    /// The keys of the table, in the order of its records.
    pub closed spec fn keys(self) -> Seq<Key> {
        self.records@.map_values(|r: Record<V>| r.key())
    }

    /// The values of the table, in the order of its records.
    pub closed spec fn values(self) -> Seq<V> {
        self.records@.map_values(|r: Record<V>| r.value)
    }

    /// No key stands twice in the table.
    pub closed spec fn wf(self) -> bool {
        self.keys().no_duplicates()
    }

    /// How the map relates to the order of the records: the keys are the
    /// map's domain, each once, and each value stands at its key's place.
    pub proof fn lemma_keys(self)
        requires
            self.wf(),
        ensures
            self.keys().no_duplicates(),
            self.keys().len() == self.values().len(),
            self.keys().len() <= usize::MAX,
            self@.dom() == self.keys().to_set(),
            self@.dom().finite(),
            self@.dom().len() == self.keys().len(),
            forall|i: int|
                0 <= i < self.keys().len() ==> self@.contains_key(#[trigger] self.keys()[i])
                    && self@[self.keys()[i]] == self.values()[i],
    {
        let keys = self.keys();
        assert(keys.len() == self.records.len());
        keys.unique_seq_to_set();
    }

    /// The number of records whose key and value meet `p`.
    pub open spec fn count_where(self, p: spec_fn(Key, V) -> bool) -> nat {
        self@.dom().filter(|k: Key| p(k, self@[k])).len()
    }

    /// The keys of those among the first `n` records that meet `p`.
    pub closed spec fn met_among_first(self, n: int, p: spec_fn(Key, V) -> bool) -> Set<Key> {
        Set::new(
            |k: Key|
                exists|i: int|
                    0 <= i < n && i < self.keys().len() && self.keys()[i] == k && p(
                        k,
                        self.values()[i],
                    ),
        )
    }

    /// How many of the first `n` records meet `p`.
    pub open spec fn count_among_first(self, n: int, p: spec_fn(Key, V) -> bool) -> nat {
        self.met_among_first(n, p).len()
    }

    /// None of no records meets anything.
    pub proof fn lemma_count_none(self, p: spec_fn(Key, V) -> bool)
        ensures
            self.count_among_first(0, p) == 0,
    {
        assert(self.met_among_first(0, p) =~= Set::<Key>::empty());
    }

    /// What meets `p` among the first `n` records is finite, and no more than `n`.
    pub proof fn lemma_count_bounded(self, n: int, p: spec_fn(Key, V) -> bool)
        requires
            self.wf(),
            0 <= n <= self.keys().len(),
        ensures
            self.met_among_first(n, p).finite(),
            self.count_among_first(n, p) <= n,
        decreases n,
    {
        if n == 0 {
            assert(self.met_among_first(0, p) =~= Set::<Key>::empty());
        } else {
            self.lemma_count_bounded(n - 1, p);
            self.lemma_count_step(n - 1, p);
        }
    }

    /// One record more adds its key to what meets `p` exactly if it meets `p`,
    /// and that key is new.
    proof fn lemma_count_step(self, n: int, p: spec_fn(Key, V) -> bool)
        requires
            self.wf(),
            0 <= n < self.keys().len(),
        ensures
            !self.met_among_first(n, p).contains(self.keys()[n]),
            self.met_among_first(n + 1, p) == (if p(self.keys()[n], self.values()[n]) {
                self.met_among_first(n, p).insert(self.keys()[n])
            } else {
                self.met_among_first(n, p)
            }),
    {
        assert(!self.met_among_first(n, p).contains(self.keys()[n]));
    }

    /// One record more counts for one more exactly if it meets `p`.
    pub proof fn lemma_count_next(self, n: int, p: spec_fn(Key, V) -> bool)
        requires
            self.wf(),
            0 <= n < self.keys().len(),
        ensures
            self.count_among_first(n, p) <= n,
            self.count_among_first(n + 1, p) == self.count_among_first(n, p) + (if p(
                self.keys()[n],
                self.values()[n],
            ) {
                1nat
            } else {
                0nat
            }),
    {
        self.lemma_count_bounded(n, p);
        self.lemma_count_step(n, p);
    }

    /// Counting through all the records gives the count over the map.
    pub proof fn lemma_count_all(self, p: spec_fn(Key, V) -> bool)
        requires
            self.wf(),
        ensures
            self.count_among_first(self.keys().len() as int, p) == self.count_where(p),
            self.count_where(p) <= self.keys().len(),
    {
        let n = self.keys().len() as int;
        let all = self.met_among_first(n, p);
        let met = self@.dom().filter(|k: Key| p(k, self@[k]));
        assert(all =~= met);
        self.lemma_count_bounded(n, p);
    }

    /// An empty table.
    pub fn new() -> (r: Self)
        ensures
            r@ == Map::<Key, V>::empty(),
            r.wf(),
    {
        Library { records: Vec::new() }
    }

    /// Remove every record.
    pub fn clear(&mut self)
        ensures
            final(self)@ == Map::<Key, V>::empty(),
            final(self).wf(),
    {
        self.records.clear();
    }

    /// The number of records.
    pub fn len(&self) -> (n: usize)
        requires
            self.wf(),
        ensures
            n == self.keys().len(),
            n == self@.dom().len(),
    {
        proof {
            self.lemma_keys();
        }
        self.records.len()
    }

    /// The package name of the record at place `i`.
    pub fn name_at(&self, i: usize) -> (name: &str)
        requires
            i < self.keys().len(),
        ensures
            name@ == self.keys()[i as int].0,
    {
        self.records[i].name.as_str()
    }

    /// The hash of the record at place `i`.
    pub fn hash_at(&self, i: usize) -> (hash: &str)
        requires
            i < self.keys().len(),
        ensures
            hash@ == self.keys()[i as int].1,
    {
        self.records[i].hash.as_str()
    }

    /// The value of the record at place `i`.
    pub fn value_at(&self, i: usize) -> (value: &V)
        requires
            i < self.keys().len(),
        ensures
            *value == self.values()[i as int],
            self.keys().len() == self.values().len(),
    {
        &self.records[i].value
    }

    /// The place of the record under the given key, if there is one.
    pub fn find(&self, name: &str, hash: &str) -> (at: Option<usize>)
        requires
            self.wf(),
        ensures
            match at {
                Some(i) => i < self.keys().len() && self.keys()[i as int] == (name@, hash@),
                None => !self.keys().contains((name@, hash@)),
            },
            at is Some <==> self@.contains_key((name@, hash@)),
    {
        proof {
            self.lemma_keys();
        }
        let n = self.records.len();
        let mut i: usize = 0;
        while i < n
            invariant
                i <= n,
                n == self.records@.len(),
                n == self.keys().len(),
                self@.dom() == self.keys().to_set(),
                forall|j: int| 0 <= j < i ==> self.keys()[j] != (name@, hash@),
            decreases n - i,
        {
            if str_eq(self.records[i].name.as_str(), name) && str_eq(
                self.records[i].hash.as_str(),
                hash,
            ) {
                assert(self.keys().contains(self.keys()[i as int]));
                return Some(i);
            }
            i += 1;
        }
        None
    }

    /// The value under the given key, if there is one.
    pub fn get(&self, name: &str, hash: &str) -> (r: Option<&V>)
        requires
            self.wf(),
        ensures
            match r {
                Some(v) => self@.contains_key((name@, hash@)) && *v == self@[(name@, hash@)],
                None => !self@.contains_key((name@, hash@)),
            },
    {
        match self.find(name, hash) {
            Some(i) => Some(&self.records[i].value),
            None => None,
        }
    }

    /// Whether any record stands under the given package name.
    pub fn contains_name(&self, name: &str) -> (r: bool)
        requires
            self.wf(),
        ensures
            r == exists|hash: Seq<char>| self@.contains_key((name@, hash)),
    {
        proof {
            self.lemma_keys();
        }
        let n = self.records.len();
        let mut i: usize = 0;
        while i < n
            invariant
                i <= n,
                n == self.records@.len(),
                n == self.keys().len(),
                self@.dom() == self.keys().to_set(),
                forall|j: int| 0 <= j < i ==> self.keys()[j].0 != name@,
            decreases n - i,
        {
            if str_eq(self.records[i].name.as_str(), name) {
                assert(self@.contains_key((name@, self.keys()[i as int].1)));
                return true;
            }
            i += 1;
        }
        false
    }

    /// Put a value in place of the one at place `i`.
    fn set_at(&mut self, i: usize, value: V)
        requires
            old(self).wf(),
            i < old(self).keys().len(),
        ensures
            final(self).wf(),
            final(self).keys() == old(self).keys(),
            final(self)@ == old(self)@.insert(old(self).keys()[i as int], value),
    {
        let ghost before = *self;
        self.records[i].value = value;
        assert(self.keys() =~= before.keys());
        proof {
            self.lemma_keys();
        }
    }

    /// Put a value in place of the one under the given key. Where no record
    /// stands under the key, nothing changes.
    pub fn replace(&mut self, name: &str, hash: &str, value: V) -> (found: bool)
        requires
            old(self).wf(),
        ensures
            final(self).wf(),
            found == old(self)@.contains_key((name@, hash@)),
            final(self)@ == (if found {
                old(self)@.insert((name@, hash@), value)
            } else {
                old(self)@
            }),
    {
        match self.find(name, hash) {
            Some(i) => {
                self.set_at(i, value);
                true
            },
            None => false,
        }
    }

    /// Put a value under a key, in place of the one that stood there if any.
    pub fn insert(&mut self, name: String, hash: String, value: V)
        requires
            old(self).wf(),
        ensures
            final(self)@ == old(self)@.insert((name@, hash@), value),
            final(self).wf(),
    {
        let ghost before = *self;
        let ghost key = (name@, hash@);
        match self.find(name.as_str(), hash.as_str()) {
            Some(i) => {
                self.set_at(i, value);
            },
            None => {
                self.records.push(Record { name, hash, value });
                assert(self.keys() =~= before.keys().push(key));
                assert(self@ =~= before@.insert(key, value)) by {
                    let now = self.keys();
                    let then = before.keys();
                    assert forall|k: Key| #[trigger] now.contains(k) implies now[now.index_of(k)]
                        == k by {}
                    assert forall|k: Key| #[trigger] then.contains(k) implies now[then.index_of(k)]
                        == k by {}
                    assert(now[then.len() as int] == key);
                }
            },
        }
    }
}

} // verus!
