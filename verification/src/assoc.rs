//! A small key-addressed collection with a mathematical `Map` view.
//!
//! Entries are held in a vector of key/value pairs whose keys are kept
//! unique; the abstract content is the finite `Map<u64, V::V>` from keys to
//! the views of the stored values. Groups of buckets are keyed this way by
//! address or prefix, and garbage collection drains and rebuilds the vector,
//! so a plain vector with a maintained uniqueness invariant serves better
//! than a hash table here.

use vstd::prelude::*;

verus! {

/// Whether some entry of `s` carries `key`.
pub(crate) open spec fn has_key<V>(s: Seq<(u64, V)>, key: u64) -> bool {
    exists|i: int| 0 <= i < s.len() && (#[trigger] s[i]).0 == key
}

/// The index of the entry carrying `key` (meaningful when keys are unique).
pub(crate) open spec fn key_index<V>(s: Seq<(u64, V)>, key: u64) -> int {
    choose|i: int| 0 <= i < s.len() && (#[trigger] s[i]).0 == key
}

/// No two entries of `s` carry the same key.
pub(crate) open spec fn keys_unique<V>(s: Seq<(u64, V)>) -> bool {
    forall|i: int, j: int|
        0 <= i < j < s.len() ==> (#[trigger] s[i]).0 != (#[trigger] s[j]).0
}

proof fn lemma_key_index_agrees<V>(s: Seq<(u64, V)>, j: int)
    requires
        keys_unique(s),
        0 <= j < s.len(),
    ensures
        key_index(s, s[j].0) == j,
{
    let key = s[j].0;
    assert(has_key(s, key));
    let i: int = key_index(s, key);
    if i < j {
        assert(s[i].0 != s[j].0);
    }
    if j < i {
        assert(s[j].0 != s[i].0);
    }
}

/// A finite map from `u64` keys to values, backed by a vector of entries
/// with pairwise-distinct keys.
pub struct AssocMap<V> {
    entries: Vec<(u64, V)>,
}

impl<V> AssocMap<V> {
    #[verifier::type_invariant]
    spec fn inv(self) -> bool {
        keys_unique(self.entries@)
    }

    /// The number of entries; useful as a termination measure when draining.
    pub closed spec fn size(self) -> nat {
        self.entries@.len()
    }
}

/// The position of `key` in `entries`, or `entries.len()` if it is absent.
fn find_index<V>(entries: &Vec<(u64, V)>, key: u64) -> (r: usize)
    ensures
        r <= entries@.len(),
        r < entries@.len() ==> entries@[r as int].0 == key,
        r == entries@.len() ==> !has_key(entries@, key),
{
    let n: usize = entries.len();
    let mut i: usize = 0;
    while i < n
        invariant
            n == entries@.len(),
            0 <= i <= n,
            forall|j: int| 0 <= j < i ==> (#[trigger] entries@[j]).0 != key,
        decreases n - i,
    {
        if entries[i].0 == key {
            return i;
        }
        i += 1;
    }
    assert(!has_key(entries@, key));
    n
}

impl<V: View> View for AssocMap<V> {
    type V = Map<u64, <V as View>::V>;

    closed spec fn view(&self) -> Map<u64, <V as View>::V> {
        let s = self.entries@;
        Map::new(|k: u64| has_key(s, k), |k: u64| s[key_index(s, k)].1@)
    }
}

impl<V: View> AssocMap<V> {
    /// The empty map.
    pub fn new() -> (r: Self)
        ensures
            r@ == Map::<u64, <V as View>::V>::empty(),
            r.size() == 0,
    {
        let r = AssocMap { entries: Vec::new() };
        proof {
            assert(r@ =~= Map::<u64, <V as View>::V>::empty());
        }
        r
    }

    /// Whether the map holds no entry.
    pub fn is_empty(&self) -> (r: bool)
        ensures
            r <==> self@ == Map::<u64, <V as View>::V>::empty(),
    {
        let r = self.entries.is_empty();
        proof {
            if self.entries@.len() == 0 {
                assert(self@ =~= Map::<u64, <V as View>::V>::empty());
            } else {
                assert(self@.contains_key(self.entries@[0].0));
            }
        }
        r
    }

    /// Whether `key` has an entry.
    pub fn contains_key(&self, key: u64) -> (r: bool)
        ensures
            r == self@.contains_key(key),
    {
        let i: usize = find_index(&self.entries, key);
        i < self.entries.len()
    }

    /// Borrow the value held for `key`, if any.
    pub fn get(&self, key: u64) -> (r: Option<&V>)
        ensures
            match r {
                Some(v) => self@.contains_key(key) && v@ == self@[key],
                None => !self@.contains_key(key),
            },
    {
        proof {
            use_type_invariant(self);
        }
        let i: usize = find_index(&self.entries, key);
        if i < self.entries.len() {
            proof {
                lemma_key_index_agrees(self.entries@, i as int);
            }
            Some(&self.entries[i].1)
        } else {
            None
        }
    }

    /// Remove and return the value held for `key`, if any.
    pub fn remove(&mut self, key: u64) -> (r: Option<V>)
        ensures
            final(self)@ == old(self)@.remove(key),
            match r {
                Some(v) => old(self)@.contains_key(key) && v@ == old(self)@[key],
                None => !old(self)@.contains_key(key) && final(self)@ == old(self)@,
            },
    {
        proof {
            use_type_invariant(&*self);
        }
        let ghost s0 = self.entries@;
        let mut entries: Vec<(u64, V)> = Vec::new();
        std::mem::swap(&mut entries, &mut self.entries);
        let i: usize = find_index(&entries, key);
        let found: Option<V> = if i < entries.len() {
            proof {
                lemma_key_index_agrees(s0, i as int);
                lemma_view_after_removal(s0, i as int);
            }
            let kv = entries.remove(i);
            Some(kv.1)
        } else {
            proof {
                assert(old(self)@.remove(key) =~= old(self)@);
            }
            None
        };
        self.entries = entries;
        found
    }

    /// Add an entry for a key not yet present.
    pub fn insert(&mut self, key: u64, value: V)
        requires
            !old(self)@.contains_key(key),
        ensures
            final(self)@ == old(self)@.insert(key, value@),
            final(self).size() == old(self).size() + 1,
    {
        proof {
            use_type_invariant(&*self);
        }
        let ghost s0 = self.entries@;
        let mut entries: Vec<(u64, V)> = Vec::new();
        std::mem::swap(&mut entries, &mut self.entries);
        proof {
            assert(!has_key(s0, key));
            lemma_view_after_push(s0, key, value);
        }
        entries.push((key, value));
        self.entries = entries;
    }

    /// Remove and return some entry, or `None` if the map is empty.
    pub fn pop(&mut self) -> (r: Option<(u64, V)>)
        ensures
            match r {
                Some(kv) => {
                    &&& old(self)@.contains_key(kv.0)
                    &&& kv.1@ == old(self)@[kv.0]
                    &&& final(self)@ == old(self)@.remove(kv.0)
                    &&& final(self).size() == old(self).size() - 1
                },
                None => {
                    &&& old(self)@ == Map::<u64, <V as View>::V>::empty()
                    &&& final(self)@ == old(self)@
                    &&& final(self).size() == old(self).size()
                },
            },
    {
        proof {
            use_type_invariant(&*self);
        }
        let ghost s0 = self.entries@;
        let mut entries: Vec<(u64, V)> = Vec::new();
        std::mem::swap(&mut entries, &mut self.entries);
        let r: Option<(u64, V)> = match entries.pop() {
            Some(kv) => {
                proof {
                    lemma_key_index_agrees(s0, s0.len() - 1);
                    lemma_view_after_removal(s0, s0.len() - 1);
                    assert(entries@ =~= s0.remove(s0.len() - 1));
                }
                Some(kv)
            },
            None => {
                proof {
                    assert(old(self)@ =~= Map::<u64, <V as View>::V>::empty());
                }
                None
            },
        };
        self.entries = entries;
        r
    }
}

/// Removing the entry at index `i` removes exactly its key from the view.
proof fn lemma_view_after_removal<V: View>(s: Seq<(u64, V)>, i: int)
    requires
        keys_unique(s),
        0 <= i < s.len(),
    ensures
        keys_unique(s.remove(i)),
        Map::new(|k: u64| has_key(s.remove(i), k), |k: u64| s.remove(i)[key_index(s.remove(i), k)].1@)
            =~= Map::new(|k: u64| has_key(s, k), |k: u64| s[key_index(s, k)].1@).remove(s[i].0),
{
    let s1 = s.remove(i);
    let removed_key = s[i].0;
    assert forall|p: int, q: int| 0 <= p < q < s1.len() implies (#[trigger] s1[p]).0
        != (#[trigger] s1[q]).0 by {
        let p0: int = if p < i { p } else { p + 1 };
        let q0: int = if q < i { q } else { q + 1 };
        assert(s1[p] == s[p0]);
        assert(s1[q] == s[q0]);
    }
    assert forall|k: u64| #[trigger] has_key(s1, k) implies has_key(s, k) && k != removed_key by {
        let j: int = key_index(s1, k);
        assert(0 <= j < s1.len() && s1[j].0 == k);
        let j0: int = if j < i { j } else { j + 1 };
        assert(s1[j] == s[j0]);
        lemma_key_index_agrees(s, j0);
        if j0 != i {
            if j0 < i {
                assert(s[j0].0 != s[i].0);
            } else {
                assert(s[i].0 != s[j0].0);
            }
        }
    }
    assert forall|k: u64| has_key(s, k) && k != removed_key implies #[trigger] has_key(s1, k) by {
        let j0: int = key_index(s, k);
        assert(0 <= j0 < s.len() && s[j0].0 == k);
        lemma_key_index_agrees(s, j0);
        if j0 < i {
            assert(s1[j0] == s[j0]);
        } else {
            assert(j0 > i);
            assert(s1[j0 - 1] == s[j0]);
        }
    }
    assert forall|k: u64| #[trigger] has_key(s1, k) implies s1[key_index(s1, k)].1@
        == s[key_index(s, k)].1@ by {
        let j: int = key_index(s1, k);
        assert(0 <= j < s1.len() && s1[j].0 == k);
        let j0: int = if j < i { j } else { j + 1 };
        assert(s1[j] == s[j0]);
        lemma_key_index_agrees(s, j0);
    }
}

/// Appending an entry with a fresh key inserts exactly that key in the view.
proof fn lemma_view_after_push<V: View>(s: Seq<(u64, V)>, key: u64, value: V)
    requires
        keys_unique(s),
        !has_key(s, key),
    ensures
        keys_unique(s.push((key, value))),
        Map::new(
            |k: u64| has_key(s.push((key, value)), k),
            |k: u64| s.push((key, value))[key_index(s.push((key, value)), k)].1@,
        ) =~= Map::new(|k: u64| has_key(s, k), |k: u64| s[key_index(s, k)].1@).insert(key, value@),
{
    let s1 = s.push((key, value));
    assert(s1[s.len() as int] == (key, value));
    assert forall|p: int, q: int| 0 <= p < q < s1.len() implies (#[trigger] s1[p]).0
        != (#[trigger] s1[q]).0 by {
        if q < s.len() {
            assert(s1[p] == s[p] && s1[q] == s[q]);
        } else {
            assert(s1[p] == s[p]);
        }
    }
    assert(has_key(s1, key));
    lemma_key_index_agrees(s1, s.len() as int);
    assert forall|k: u64| #[trigger] has_key(s1, k) && k != key implies has_key(s, k)
        && s1[key_index(s1, k)].1@ == s[key_index(s, k)].1@ by {
        let j: int = key_index(s1, k);
        assert(0 <= j < s1.len() && s1[j].0 == k);
        assert(j != s.len());
        assert(s1[j] == s[j]);
        lemma_key_index_agrees(s, j);
    }
    assert forall|k: u64| has_key(s, k) implies #[trigger] has_key(s1, k) by {
        let j: int = key_index(s, k);
        assert(s1[j] == s[j]);
    }
}

} // verus!
