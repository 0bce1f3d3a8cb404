//! A small string-keyed association map with a `Map<Seq<char>, V>` view.
//! It backs both the in-process registry and the coordination-store
//! model: values are arbitrary, keys are unique, and every operation is
//! specified against the map view.

use vstd::prelude::*;

verus! {

/// True when `s` holds an entry whose key reads `k`.
pub open spec fn seq_has_key<V>(s: Seq<(String, V)>, k: Seq<char>) -> bool {
    exists|i: int| 0 <= i < s.len() && #[trigger] s[i].0@ == k
}

/// The index of the entry whose key reads `k` (meaningful only when the
/// keys are unique and `seq_has_key` holds).
pub open spec fn seq_key_index<V>(s: Seq<(String, V)>, k: Seq<char>) -> int {
    choose|i: int| 0 <= i < s.len() && #[trigger] s[i].0@ == k
}

/// No two entries share a key.
pub open spec fn seq_keys_unique<V>(s: Seq<(String, V)>) -> bool {
    forall|i: int, j: int|
        #![trigger s[i].0@, s[j].0@]
        0 <= i < j < s.len() ==> s[i].0@ != s[j].0@
}

/// With unique keys, the entry at `i` is the one `seq_key_index` finds
/// for its own key.
pub proof fn lemma_index_of_key<V>(s: Seq<(String, V)>, i: int)
    requires
        seq_keys_unique(s),
        0 <= i < s.len(),
    ensures
        seq_has_key(s, s[i].0@),
        seq_key_index(s, s[i].0@) == i,
{
    let k = s[i].0@;
    assert(seq_has_key(s, k));
    let j = seq_key_index(s, k);
    assert(0 <= j < s.len() && s[j].0@ == k);
    if i < j {
        assert(s[i].0@ != s[j].0@);
    } else if j < i {
        assert(s[j].0@ != s[i].0@);
    }
}

/// String-keyed map, stored as a vector of entries with unique keys.
pub struct KvMap<V> {
    entries: Vec<(String, V)>,
}

impl<V> KvMap<V> {
    /// Representation invariant: stored keys are pairwise distinct.
    pub closed spec fn inv(&self) -> bool {
        seq_keys_unique(self.entries@)
    }

    /// Number of entries.
    pub closed spec fn spec_len(&self) -> nat {
        self.entries@.len()
    }

    /// Create an empty map.
    pub fn new() -> (r: Self)
        ensures
            r.inv(),
            r@ == Map::<Seq<char>, V>::empty(),
            r.spec_len() == 0,
    {
        let r = KvMap { entries: Vec::new() };
        proof {
            assert(r@ =~= Map::<Seq<char>, V>::empty());
        }
        r
    }

    /// Number of entries.
    pub fn len(&self) -> (r: usize)
        ensures
            r == self.spec_len(),
    {
        self.entries.len()
    }

    /// Locate the entry for `key`, if any.
    fn find(&self, key: &String) -> (r: Option<usize>)
        requires
            self.inv(),
        ensures
            match r {
                Some(i) => i < self.entries@.len() && self.entries@[i as int].0@ == key@
                    && seq_has_key(self.entries@, key@) && seq_key_index(self.entries@, key@)
                    == i as int,
                None => !seq_has_key(self.entries@, key@),
            },
    {
        let n = self.entries.len();
        let mut i: usize = 0;
        while i < n
            invariant
                i <= n,
                n == self.entries@.len(),
                self.inv(),
                forall|j: int| 0 <= j < i ==> #[trigger] self.entries@[j].0@ != key@,
            decreases n - i,
        {
            if self.entries[i].0 == *key {
                proof {
                    lemma_index_of_key(self.entries@, i as int);
                }
                return Some(i);
            }
            i = i + 1;
        }
        None
    }

    /// Borrow the value stored under `key`.
    pub fn get(&self, key: &String) -> (r: Option<&V>)
        requires
            self.inv(),
        ensures
            self@.contains_key(key@) ==> (r matches Some(v) && *v == self@[key@]),
            !self@.contains_key(key@) ==> r is None,
    {
        match self.find(key) {
            Some(i) => Some(&self.entries[i].1),
            None => None,
        }
    }

    /// Insert or overwrite the value under `key`.
    pub fn insert(&mut self, key: String, value: V)
        requires
            old(self).inv(),
        ensures
            final(self).inv(),
            final(self)@ == old(self)@.insert(key@, value),
            final(self)@.contains_key(key@),
    {
        let ghost old_seq = self.entries@;
        match self.find(&key) {
            Some(i) => {
                let ghost k = key@;
                self.entries.set(i, (key, value));
                proof {
                    let new_seq = self.entries@;
                    assert(forall|j: int|
                        0 <= j < new_seq.len() ==> #[trigger] new_seq[j].0@ == old_seq[j].0@);
                    assert(self.inv());
                    assert forall|q: Seq<char>| #[trigger]
                        seq_has_key(new_seq, q) == seq_has_key(old_seq, q) by {
                        if seq_has_key(new_seq, q) {
                            let a = seq_key_index(new_seq, q);
                            assert(old_seq[a].0@ == q);
                        }
                        if seq_has_key(old_seq, q) {
                            let a = seq_key_index(old_seq, q);
                            assert(new_seq[a].0@ == q);
                        }
                    }
                    assert forall|q: Seq<char>|
                        seq_has_key(new_seq, q) && q != k implies #[trigger] seq_value(new_seq, q)
                        == seq_value(old_seq, q) by {
                        let a = seq_key_index(new_seq, q);
                        lemma_index_of_key(new_seq, a);
                        lemma_index_of_key(old_seq, a);
                        assert(a != i as int);
                    }
                    lemma_index_of_key(new_seq, i as int);
                    assert(self@ =~= old(self)@.insert(k, value));
                }
            },
            None => {
                let ghost k = key@;
                self.entries.push((key, value));
                proof {
                    let new_seq = self.entries@;
                    let n = old_seq.len() as int;
                    assert(new_seq[n] == (key, value));
                    assert forall|a: int, b: int|
                        0 <= a < b < new_seq.len() implies #[trigger] new_seq[a].0@
                        != #[trigger] new_seq[b].0@ by {
                        if b < n {
                            assert(old_seq[a].0@ != old_seq[b].0@);
                        } else {
                            assert(new_seq[b].0@ == k);
                            assert(new_seq[a].0@ == old_seq[a].0@);
                            if new_seq[a].0@ == k {
                                assert(seq_has_key(old_seq, k));
                            }
                        }
                    }
                    assert(self.inv());
                    assert forall|q: Seq<char>|
                        seq_has_key(new_seq, q) && q != k implies seq_has_key(old_seq, q)
                        && #[trigger] seq_value(new_seq, q) == seq_value(old_seq, q) by {
                        let a = seq_key_index(new_seq, q);
                        assert(a < n);
                        assert(old_seq[a].0@ == q);
                        lemma_index_of_key(old_seq, a);
                        lemma_index_of_key(new_seq, a);
                    }
                    assert forall|q: Seq<char>|
                        seq_has_key(old_seq, q) implies #[trigger] seq_has_key(new_seq, q) by {
                        let a = seq_key_index(old_seq, q);
                        assert(new_seq[a].0@ == q);
                    }
                    lemma_index_of_key(new_seq, n);
                    assert(seq_value(new_seq, k) == value);
                    assert(self@ =~= old(self)@.insert(k, value));
                }
            },
        }
    }

    /// Remove and return the value under `key`, if any.
    pub fn take(&mut self, key: &String) -> (r: Option<V>)
        requires
            old(self).inv(),
        ensures
            final(self).inv(),
            old(self)@.contains_key(key@) ==> (r matches Some(v) && v == old(self)@[key@]),
            !old(self)@.contains_key(key@) ==> r is None && final(self)@ == old(self)@,
            final(self)@ == old(self)@.remove(key@),
    {
        let ghost old_seq = self.entries@;
        let ghost k = key@;
        match self.find(key) {
            Some(i) => {
                let pair = self.entries.remove(i);
                proof {
                    let new_seq = self.entries@;
                    let n = new_seq.len() as int;
                    assert forall|a: int, b: int|
                        0 <= a < b < n implies #[trigger] new_seq[a].0@ != #[trigger] new_seq[b].0@
                        by {
                        let a0 = if a < i as int {
                            a
                        } else {
                            a + 1
                        };
                        let b0 = if b < i as int {
                            b
                        } else {
                            b + 1
                        };
                        assert(new_seq[a].0@ == old_seq[a0].0@);
                        assert(new_seq[b].0@ == old_seq[b0].0@);
                        assert(old_seq[a0].0@ != old_seq[b0].0@);
                    }
                    assert(self.inv());
                    assert forall|q: Seq<char>|
                        seq_has_key(new_seq, q) implies q != k && seq_has_key(old_seq, q)
                        && #[trigger] seq_value(new_seq, q) == seq_value(old_seq, q) by {
                        let a = seq_key_index(new_seq, q);
                        lemma_index_of_key(new_seq, a);
                        let a0 = if a < i as int {
                            a
                        } else {
                            a + 1
                        };
                        assert(new_seq[a].0@ == old_seq[a0].0@);
                        lemma_index_of_key(old_seq, a0);
                        assert(old_seq[i as int].0@ == k);
                        if q == k {
                            assert(a0 == i as int);
                        }
                    }
                    assert forall|q: Seq<char>|
                        seq_has_key(old_seq, q) && q != k implies #[trigger] seq_has_key(new_seq, q)
                        by {
                        let a0 = seq_key_index(old_seq, q);
                        assert(old_seq[a0].0@ == q);
                        assert(a0 != i as int);
                        let a = if a0 < i as int {
                            a0
                        } else {
                            a0 - 1
                        };
                        assert(new_seq[a].0@ == old_seq[a0].0@);
                    }
                    assert(self@ =~= old(self)@.remove(k));
                }
                Some(pair.1)
            },
            None => {
                proof {
                    assert(self@ =~= old(self)@.remove(k));
                }
                None
            },
        }
    }

    /// Remove the entry under `key`; report whether it was present.
    pub fn remove(&mut self, key: &String) -> (r: bool)
        requires
            old(self).inv(),
        ensures
            final(self).inv(),
            final(self)@ == old(self)@.remove(key@),
            r == old(self)@.contains_key(key@),
    {
        match self.take(key) {
            Some(_) => true,
            None => false,
        }
    }

    /// Clone of every key, in storage order, without duplicates, and
    /// together covering exactly the map's domain.
    pub fn keys(&self) -> (r: Vec<String>)
        requires
            self.inv(),
        ensures
            r@.len() == self.spec_len(),
            forall|i: int| 0 <= i < r@.len() ==> self@.contains_key(#[trigger] r@[i]@),
            forall|i: int, j: int|
                #![trigger r@[i]@, r@[j]@]
                0 <= i < j < r@.len() ==> r@[i]@ != r@[j]@,
            forall|q: Seq<char>|
                self@.contains_key(q) ==> exists|i: int| 0 <= i < r@.len() && #[trigger] r@[i]@
                    == q,
    {
        let n = self.entries.len();
        let mut r: Vec<String> = Vec::new();
        let mut i: usize = 0;
        while i < n
            invariant
                i <= n,
                n == self.entries@.len(),
                self.inv(),
                r@.len() == i,
                forall|j: int| 0 <= j < i ==> #[trigger] r@[j]@ == self.entries@[j].0@,
            decreases n - i,
        {
            r.push(self.entries[i].0.clone());
            i = i + 1;
        }
        proof {
            assert forall|j: int| 0 <= j < r@.len() implies self@.contains_key(#[trigger] r@[j]@)
                by {
                assert(self.entries@[j].0@ == r@[j]@);
            }
            assert forall|q: Seq<char>| self@.contains_key(q) implies exists|j: int|
                0 <= j < r@.len() && #[trigger] r@[j]@ == q by {
                let a = seq_key_index(self.entries@, q);
                assert(r@[a]@ == q);
            }
        }
        r
    }
}

/// The value stored under `k` (meaningful only when the keys are unique
/// and `seq_has_key` holds).
pub open spec fn seq_value<V>(s: Seq<(String, V)>, k: Seq<char>) -> V {
    s[seq_key_index(s, k)].1
}

impl<V> View for KvMap<V> {
    type V = Map<Seq<char>, V>;

    closed spec fn view(&self) -> Map<Seq<char>, V> {
        Map::new(
            |k: Seq<char>| seq_has_key(self.entries@, k),
            |k: Seq<char>| seq_value(self.entries@, k),
        )
    }
}

} // verus!
