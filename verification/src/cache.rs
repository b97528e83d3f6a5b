//! A short-lived memo of the last successful fetch for each key.

use crate::strings::same_text;
use vstd::prelude::*;

verus! {

/// A value and when it was fetched.
pub struct CacheEntry<T> {
    pub key: String,
    pub value: T,
    /// Seconds since 1970-01-01 00:00:00 UTC.
    pub fetched_at: i64,
}

/// At most one entry for each key.
pub struct Cache<T> {
    entries: Vec<CacheEntry<T>>,
}

/// Whether a value fetched at `fetched_at` still counts at `now`, with a
/// freshness window of `window` seconds.
pub open spec fn is_fresh(fetched_at: i64, now: i64, window: u64) -> bool {
    now - fetched_at < window
}

/// The entries as a map from key to value and instant.
pub open spec fn entries_map<T>(entries: Seq<CacheEntry<T>>) -> Map<Seq<char>, (T, i64)>
    decreases entries.len(),
{
    if entries.len() == 0 {
        Map::empty()
    } else {
        entries_map(entries.drop_last()).insert(
            entries.last().key@,
            (entries.last().value, entries.last().fetched_at),
        )
    }
}

/// No key occurs twice.
pub open spec fn distinct_keys<T>(entries: Seq<CacheEntry<T>>) -> bool {
    forall|i: int, j: int|
        0 <= i < j < entries.len() ==> (#[trigger] entries[i]).key@ != (#[trigger] entries[j]).key@
}

/// An entry of the sequence is what the map holds for its key.
pub proof fn lemma_entries_map<T>(entries: Seq<CacheEntry<T>>)
    requires
        distinct_keys(entries),
    ensures
        forall|i: int|
            0 <= i < entries.len() ==> {
                &&& entries_map(entries).contains_key((#[trigger] entries[i]).key@)
                &&& entries_map(entries)[entries[i].key@] == (entries[i].value, entries[i].fetched_at)
            },
        forall|k: Seq<char>| #[trigger]
            entries_map(entries).contains_key(k) ==> exists|i: int|
                0 <= i < entries.len() && (#[trigger] entries[i]).key@ == k,
    decreases entries.len(),
{
    if entries.len() > 0 {
        let before = entries.drop_last();
        assert(distinct_keys(before)) by {
            assert forall|i: int, j: int| 0 <= i < j < before.len() implies (#[trigger] before[i]).key@
                != (#[trigger] before[j]).key@ by {
                assert(before[i] == entries[i]);
                assert(before[j] == entries[j]);
            }
        }
        lemma_entries_map(before);
        assert forall|i: int| 0 <= i < entries.len() implies {
            &&& entries_map(entries).contains_key((#[trigger] entries[i]).key@)
            &&& entries_map(entries)[entries[i].key@] == (entries[i].value, entries[i].fetched_at)
        } by {
            if i < entries.len() - 1 {
                assert(before[i] == entries[i]);
                assert(entries[i].key@ != entries[entries.len() - 1].key@);
            }
        }
        assert forall|k: Seq<char>| #[trigger]
            entries_map(entries).contains_key(k) implies exists|i: int|
            0 <= i < entries.len() && (#[trigger] entries[i]).key@ == k by {
            if k == entries.last().key@ {
                assert(entries[entries.len() - 1].key@ == k);
            } else {
                assert(entries_map(before).contains_key(k));
                let i = choose|i: int| 0 <= i < before.len() && (#[trigger] before[i]).key@ == k;
                assert(entries[i] == before[i]);
            }
        }
    }
}

impl<T> Cache<T> {
    /// No key has two entries.
    pub closed spec fn well_formed(&self) -> bool {
        distinct_keys(self.entries@)
    }

    /// What the cache holds: for each key the value and when it was fetched.
    pub closed spec fn view(&self) -> Map<Seq<char>, (T, i64)> {
        entries_map(self.entries@)
    }

    /// An empty cache.
    pub fn new() -> (c: Self)
        ensures
            c.well_formed(),
            c@ == Map::<Seq<char>, (T, i64)>::empty(),
    {
        Cache { entries: Vec::new() }
    }

    /// Where the entry for `key` stands.
    #[verifier::loop_isolation(false)]
    fn position(&self, key: &str) -> (r: Option<usize>)
        requires
            self.well_formed(),
        ensures
            match r {
                Some(i) => {
                    &&& i < self.entries@.len()
                    &&& self.entries@[i as int].key@ == key@
                    &&& self@.contains_key(key@)
                    &&& self@[key@] == (self.entries@[i as int].value, self.entries@[i as int].fetched_at)
                },
                None => !self@.contains_key(key@),
            },
    {
        proof {
            lemma_entries_map(self.entries@);
        }
        let mut i: usize = 0;
        while i < self.entries.len()
            invariant
                i <= self.entries@.len(),
                forall|k: int| 0 <= k < i ==> (#[trigger] self.entries@[k]).key@ != key@,
            decreases self.entries.len() - i,
        {
            if same_text(self.entries[i].key.as_str(), key) {
                assert(self.entries@[i as int].key@ == key@);
                return Some(i);
            }
            i += 1;
        }
        None
    }

    /// The value for `key`, if there is one that is still fresh at `now`.
    pub fn lookup(&self, key: &str, now: i64, window: u64) -> (r: Option<&T>)
        requires
            self.well_formed(),
        ensures
            r == if self@.contains_key(key@) && is_fresh(self@[key@].1, now, window) {
                Some(&self@[key@].0)
            } else {
                None
            },
    {
        match self.position(key) {
            None => None,
            Some(i) => {
                let entry = &self.entries[i];
                let age: i128 = now as i128 - entry.fetched_at as i128;
                if age < window as i128 {
                    Some(&entry.value)
                } else {
                    None
                }
            },
        }
    }

    /// Puts `value`, fetched at `now`, in the place of whatever the cache
    /// held for `key`.
    pub fn store(&mut self, key: &str, value: T, now: i64)
        requires
            old(self).well_formed(),
        ensures
            final(self).well_formed(),
            final(self)@ == old(self)@.insert(key@, (value, now)),
    {
        proof {
            lemma_entries_map(self.entries@);
        }
        let fresh = CacheEntry { key: key.to_owned(), value, fetched_at: now };
        match self.position(key) {
            Some(i) => {
                let ghost before = self.entries@;
                self.entries.set(i, fresh);
                proof {
                    lemma_store_replace(before, self.entries@, i as int);
                }
            },
            None => {
                let ghost before = self.entries@;
                self.entries.push(fresh);
                proof {
                    assert(self.entries@.drop_last() =~= before);
                    assert(distinct_keys(self.entries@)) by {
                        assert forall|i: int, j: int| 0 <= i < j < self.entries@.len() implies (
                        #[trigger] self.entries@[i]).key@ != (#[trigger] self.entries@[j]).key@ by {
                            assert(self.entries@[i] == before[i]);
                            if j < before.len() {
                                assert(self.entries@[j] == before[j]);
                            }
                        }
                    }
                }
            },
        }
    }

    /// Whether the cache holds a value for `key` that is fresh at `now`.
    pub open spec fn has_fresh(&self, key: Seq<char>, now: i64, window: u64) -> bool {
        self@.contains_key(key) && is_fresh(self@[key].1, now, window)
    }

    /// The value for `key`: the cached one where it is still fresh at `now`,
    /// and `fetch` is then not called; else what `fetch` returns, which the
    /// cache then holds in the place of what it held for `key`.  Where
    /// `fetch` fails the cache stays as it was.
    pub fn get_or_fetch<E, F: FnOnce() -> Result<T, E>>(
        &mut self,
        key: &str,
        now: i64,
        window: u64,
        fetch: F,
    ) -> (r: Result<&T, E>)
        requires
            old(self).well_formed(),
            fetch.requires(()),
        ensures
            final(self).well_formed(),
            old(self).has_fresh(key@, now, window) ==> final(self)@ == old(self)@ && r == Ok::<
                &T,
                E,
            >(&old(self)@[key@].0),
            !old(self).has_fresh(key@, now, window) ==> match r {
                Ok(v) => fetch.ensures((), Ok(*v)) && final(self)@ == old(self)@.insert(
                    key@,
                    (*v, now),
                ),
                Err(e) => fetch.ensures((), Err(e)) && final(self)@ == old(self)@,
            },
    {
        if self.lookup(key, now, window).is_none() {
            match fetch() {
                Ok(value) => {
                    self.store(key, value, now);
                },
                Err(e) => {
                    return Err(e);
                },
            }
        }
        match self.position(key) {
            Some(i) => Ok(&self.entries[i].value),
            None => {
                proof {
                    assert(false);
                }
                unreached()
            },
        }
    }
}

/// Replacing the entry of a key leaves one entry for each key, and the map
/// with that key's value replaced.
pub proof fn lemma_store_replace<T>(before: Seq<CacheEntry<T>>, after: Seq<CacheEntry<T>>, i: int)
    requires
        distinct_keys(before),
        0 <= i < before.len(),
        after == before.update(i, after[i]),
        after.len() == before.len(),
        after[i].key@ == before[i].key@,
    ensures
        distinct_keys(after),
        entries_map(after) == entries_map(before).insert(
            after[i].key@,
            (after[i].value, after[i].fetched_at),
        ),
{
    assert(distinct_keys(after)) by {
        assert forall|a: int, b: int| 0 <= a < b < after.len() implies (#[trigger] after[a]).key@ != (
        #[trigger] after[b]).key@ by {
            assert(after[a].key@ == before[a].key@);
            assert(after[b].key@ == before[b].key@);
        }
    }
    lemma_entries_map(before);
    lemma_entries_map(after);
    let m1 = entries_map(after);
    let m2 = entries_map(before).insert(after[i].key@, (after[i].value, after[i].fetched_at));
    assert forall|k: Seq<char>| m1.contains_key(k) <==> m2.contains_key(k) by {
        if m1.contains_key(k) {
            let a = choose|a: int| 0 <= a < after.len() && (#[trigger] after[a]).key@ == k;
            assert(before[a].key@ == k);
        }
        if m2.contains_key(k) && k != after[i].key@ {
            let a = choose|a: int| 0 <= a < before.len() && (#[trigger] before[a]).key@ == k;
            assert(after[a].key@ == k);
        }
    }
    assert forall|k: Seq<char>| m1.contains_key(k) implies m1[k] == m2[k] by {
        let a = choose|a: int| 0 <= a < after.len() && (#[trigger] after[a]).key@ == k;
        if a != i {
            assert(after[a] == before[a]);
        }
    }
    assert(m1 =~= m2);
}

} // verus!
