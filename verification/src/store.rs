//! The keyed store behind each entity kind: entries held in strictly
//! ascending key order, viewed as a map, with ordered range scans.

use vstd::prelude::*;

use crate::order::{
    key_lt, lemma_key_lt_trans, lemma_key_lt_trichotomy, KeyView, StoreKey,
};

verus! {

/// Whether the keys of `s` are strictly ascending.
pub open spec fn sorted_keys<T>(s: Seq<(KeyView, T)>) -> bool {
    forall|i: int, j: int|
        #![trigger s[i], s[j]]
        0 <= i < j < s.len() ==> key_lt(s[i].0, s[j].0)
}

/// Whether some entry of `s` bears the key `k`.
pub open spec fn has_key<T>(s: Seq<(KeyView, T)>, k: KeyView) -> bool {
    exists|i: int| 0 <= i < s.len() && (#[trigger] s[i]).0 == k
}

/// The position of the entry bearing `k`; meaningful only when `has_key(s, k)`.
pub open spec fn index_of_key<T>(s: Seq<(KeyView, T)>, k: KeyView) -> int {
    choose|i: int| 0 <= i < s.len() && (#[trigger] s[i]).0 == k
}

/// The entries of `s` read as a key-to-value map.
pub open spec fn seq_as_map<T>(s: Seq<(KeyView, T)>) -> Map<KeyView, T> {
    Map::new(|k: KeyView| has_key(s, k), |k: KeyView| s[index_of_key(s, k)].1)
}

/// In a strictly sorted sequence, a key appears at no two positions.
pub proof fn lemma_sorted_key_unique<T>(s: Seq<(KeyView, T)>, i: int, j: int)
    requires
        sorted_keys(s),
        0 <= i < s.len(),
        0 <= j < s.len(),
        s[i].0 == s[j].0,
    ensures
        i == j,
{
    if i < j {
        lemma_key_lt_trichotomy(s[i].0, s[j].0);
    }
    if j < i {
        lemma_key_lt_trichotomy(s[j].0, s[i].0);
    }
}

/// In a strictly sorted sequence, the entry at `i` is the one `seq_as_map` reads.
pub proof fn lemma_key_index<T>(s: Seq<(KeyView, T)>, i: int)
    requires
        sorted_keys(s),
        0 <= i < s.len(),
    ensures
        has_key(s, s[i].0),
        index_of_key(s, s[i].0) == i,
        seq_as_map(s).contains_key(s[i].0),
        seq_as_map(s)[s[i].0] == s[i].1,
{
    assert(has_key(s, s[i].0));
    let j = index_of_key(s, s[i].0);
    lemma_sorted_key_unique(s, i, j);
}

/// A keyed store with entries held in strictly ascending key order.
/// The view is the map from key values to entry values; the order of the
/// entries backs the range scans.
pub struct Store<V> {
    entries: Vec<(StoreKey, V)>,
}

impl<V: View> View for Store<V> {
    type V = Map<KeyView, <V as View>::V>;

    closed spec fn view(&self) -> Map<KeyView, <V as View>::V> {
        seq_as_map(self.entry_seq())
    }
}

impl<V: View> Store<V> {
    /// The (key value, entry value) pairs in store order.
    pub closed spec fn entry_seq(&self) -> Seq<(KeyView, <V as View>::V)> {
        self.entries@.map(|i: int, e: (StoreKey, V)| (e.0@, e.1@))
    }

    /// Internal invariant: keys strictly ascending.
    pub open spec fn inv(&self) -> bool {
        sorted_keys(self.entry_seq())
    }

    /// An empty store.
    pub fn new() -> (r: Store<V>)
        ensures
            r.inv(),
            r@ == Map::<KeyView, <V as View>::V>::empty(),
            r.entry_seq() == Seq::<(KeyView, <V as View>::V)>::empty(),
    {
        let r = Store { entries: Vec::new() };
        proof {
            assert(r.entry_seq() =~= Seq::<(KeyView, <V as View>::V)>::empty());
            assert(r@ =~= Map::<KeyView, <V as View>::V>::empty());
        }
        r
    }

    /// The number of live entries.
    pub fn len(&self) -> (r: usize)
        ensures
            r == self.entry_seq().len(),
    {
        self.entries.len()
    }

    /// The entry at position `i` in store order.
    pub fn entry_at(&self, i: usize) -> (r: (&StoreKey, &V))
        requires
            i < self.entry_seq().len(),
        ensures
            (r.0@, r.1@) == self.entry_seq()[i as int],
    {
        let e = &self.entries[i];
        (&e.0, &e.1)
    }

    /// The position of the entry bearing `key@`, if one is live.
    fn find(&self, key: &StoreKey) -> (r: Option<usize>)
        ensures
            match r {
                Some(i) => i < self.entry_seq().len() && self.entry_seq()[i as int].0 == key@,
                None => !has_key(self.entry_seq(), key@),
            },
    {
        let ghost s = self.entry_seq();
        let n = self.entries.len();
        let mut i: usize = 0;
        while i < n
            invariant
                i <= n,
                n == s.len(),
                s == self.entry_seq(),
                forall|j: int| 0 <= j < i ==> (#[trigger] s[j]).0 != key@,
            decreases n - i,
        {
            let e = &self.entries[i];
            if e.0.eq_view(key) {
                return Some(i);
            }
            i += 1;
        }
        None
    }

    /// Whether an entry bearing `key@` is live.
    pub fn contains_key(&self, key: &StoreKey) -> (r: bool)
        requires
            self.inv(),
        ensures
            r == self@.contains_key(key@),
    {
        match self.find(key) {
            Some(i) => {
                proof {
                    lemma_key_index(self.entry_seq(), i as int);
                }
                true
            },
            None => false,
        }
    }

    /// The live entry bearing `key@`, if any.
    pub fn get(&self, key: &StoreKey) -> (r: Option<&V>)
        requires
            self.inv(),
        ensures
            match r {
                Some(v) => self@.contains_key(key@) && v@ == self@[key@],
                None => !self@.contains_key(key@),
            },
    {
        match self.find(key) {
            Some(i) => {
                proof {
                    lemma_key_index(self.entry_seq(), i as int);
                }
                let e = &self.entries[i];
                Some(&e.1)
            },
            None => None,
        }
    }

    /// The least position whose key is not below `key@`; the length if all are.
    fn insert_position(&self, key: &StoreKey) -> (r: usize)
        requires
            self.inv(),
        ensures
            r <= self.entry_seq().len(),
            forall|j: int| 0 <= j < r ==> key_lt((#[trigger] self.entry_seq()[j]).0, key@),
            r < self.entry_seq().len() ==> !key_lt(self.entry_seq()[r as int].0, key@),
    {
        let ghost s = self.entry_seq();
        let n = self.entries.len();
        let mut i: usize = 0;
        while i < n
            invariant
                i <= n,
                n == s.len(),
                s == self.entry_seq(),
                forall|j: int| 0 <= j < i ==> key_lt((#[trigger] s[j]).0, key@),
            decreases n - i,
        {
            let e = &self.entries[i];
            if !e.0.lt(key) {
                return i;
            }
            i += 1;
        }
        i
    }

    /// Creates or replaces the entry bearing `key@`.
    pub fn put(&mut self, key: StoreKey, value: V)
        requires
            old(self).inv(),
        ensures
            final(self).inv(),
            final(self)@ == old(self)@.insert(key@, value@),
    {
        let ghost s0 = self.entry_seq();
        let i = self.insert_position(&key);
        let replace = i < self.entries.len() && {
            let e = &self.entries[i];
            e.0.eq_view(&key)
        };
        if replace {
            let _ = self.entries.remove(i);
            self.entries.insert(i, (key, value));
        } else {
            self.entries.insert(i, (key, value));
        }
        proof {
            let s1 = self.entry_seq();
            let k = key@;
            if replace {
                assert(s0[i as int].0 == k);
                assert(s1.len() == s0.len());
                assert(forall|j: int| 0 <= j < s1.len() && j != i ==> s1[j] == s0[j]);
                assert(s1[i as int] == (k, value@));
                assert forall|p: int, q: int|
                    #![trigger s1[p], s1[q]]
                    0 <= p < q < s1.len() implies key_lt(s1[p].0, s1[q].0) by {
                    assert(s0[p].0 == s1[p].0);
                    assert(s0[q].0 == s1[q].0);
                }
            } else {
                assert(s1 =~= s0.insert(i as int, (k, value@)));
                if i < s0.len() {
                    lemma_key_lt_trichotomy(s0[i as int].0, k);
                    assert(key_lt(k, s0[i as int].0));
                }
                assert forall|p: int, q: int|
                    #![trigger s1[p], s1[q]]
                    0 <= p < q < s1.len() implies key_lt(s1[p].0, s1[q].0) by {
                    if p < i && q == i {
                        assert(s1[p] == s0[p]);
                        assert(key_lt(s0[p].0, k));
                    } else if q < i {
                        assert(s1[p] == s0[p] && s1[q] == s0[q]);
                    } else if p > i {
                        assert(s1[p] == s0[p - 1] && s1[q] == s0[q - 1]);
                    } else {
                        // p <= i < q, p < q: the entry at q comes from position q - 1 >= i
                        assert(s1[q] == s0[q - 1]);
                        if q - 1 > i {
                            lemma_key_lt_trans(k, s0[i as int].0, s0[q - 1].0);
                        }
                        assert(key_lt(k, s0[q - 1].0));
                        if p < i {
                            assert(s1[p] == s0[p]);
                            lemma_key_lt_trans(s0[p].0, k, s0[q - 1].0);
                        }
                    }
                }
            }
            assert(final(self)@ =~= old(self)@.insert(k, value@)) by {
                assert forall|k2: KeyView| #[trigger]
                    has_key(s1, k2) implies k2 == k || has_key(s0, k2) by {
                    let j = choose|j: int| 0 <= j < s1.len() && (#[trigger] s1[j]).0 == k2;
                    if k2 != k {
                        if replace {
                            assert(s0[j].0 == k2);
                        } else if j < i {
                            assert(s0[j].0 == k2);
                        } else {
                            assert(s0[j - 1].0 == k2);
                        }
                    }
                }
                assert forall|k2: KeyView| k2 != k && #[trigger]
                    has_key(s0, k2) implies has_key(s1, k2) by {
                    let j = choose|j: int| 0 <= j < s0.len() && (#[trigger] s0[j]).0 == k2;
                    if replace {
                        assert(s0[i as int].0 == k);
                        assert(j != i);
                        assert(s1[j].0 == k2);
                    } else if j < i {
                        assert(s1[j].0 == k2);
                    } else {
                        assert(s1[j + 1].0 == k2);
                    }
                }
                assert(has_key(s1, k)) by {
                    assert(s1[i as int].0 == k);
                }
                assert forall|k2: KeyView| #[trigger]
                    seq_as_map(s1).contains_key(k2) implies seq_as_map(s1)[k2] == old(
                    self,
                )@.insert(k, value@)[k2] by {
                    if k2 == k {
                        lemma_key_index(s1, i as int);
                    } else {
                        let j = choose|j: int| 0 <= j < s1.len() && (#[trigger] s1[j]).0 == k2;
                        lemma_key_index(s1, j);
                        if replace {
                            lemma_key_index(s0, j);
                            assert(s1[j] == s0[j]);
                        } else if j < i {
                            lemma_key_index(s0, j);
                            assert(s1[j] == s0[j]);
                        } else {
                            lemma_key_index(s0, j - 1);
                            assert(s1[j] == s0[j - 1]);
                        }
                    }
                }
            }
        }
    }

    /// Removes and returns the entry bearing `key@`, if one is live.
    pub fn remove(&mut self, key: &StoreKey) -> (r: Option<V>)
        requires
            old(self).inv(),
        ensures
            final(self).inv(),
            final(self)@ == old(self)@.remove(key@),
            match r {
                Some(v) => old(self)@.contains_key(key@) && v@ == old(self)@[key@],
                None => !old(self)@.contains_key(key@) && final(self)@ == old(self)@,
            },
    {
        let ghost s0 = self.entry_seq();
        match self.find(key) {
            Some(i) => {
                proof {
                    lemma_key_index(s0, i as int);
                }
                let e = self.entries.remove(i);
                proof {
                    let s1 = self.entry_seq();
                    let k = key@;
                    assert(s1 =~= s0.remove(i as int));
                    assert forall|p: int, q: int|
                        #![trigger s1[p], s1[q]]
                        0 <= p < q < s1.len() implies key_lt(s1[p].0, s1[q].0) by {
                        if q < i {
                            assert(s1[p] == s0[p] && s1[q] == s0[q]);
                        } else if p < i {
                            assert(s1[p] == s0[p] && s1[q] == s0[q + 1]);
                        } else {
                            assert(s1[p] == s0[p + 1] && s1[q] == s0[q + 1]);
                        }
                    }
                    assert(final(self)@ =~= old(self)@.remove(k)) by {
                        assert forall|k2: KeyView| #[trigger]
                            has_key(s1, k2) implies k2 != k && has_key(s0, k2) by {
                            let j = choose|j: int|
                                0 <= j < s1.len() && (#[trigger] s1[j]).0 == k2;
                            assert(s0[i as int].0 == k);
                            if j < i {
                                assert(s0[j].0 == k2);
                                if k2 == k {
                                    lemma_sorted_key_unique(s0, j, i as int);
                                }
                            } else {
                                assert(s0[j + 1].0 == k2);
                                if k2 == k {
                                    lemma_sorted_key_unique(s0, j + 1, i as int);
                                }
                            }
                        }
                        assert forall|k2: KeyView| k2 != k && #[trigger]
                            has_key(s0, k2) implies has_key(s1, k2) by {
                            let j = choose|j: int|
                                0 <= j < s0.len() && (#[trigger] s0[j]).0 == k2;
                            assert(s0[i as int].0 == k);
                            assert(j != i);
                            if j < i {
                                assert(s1[j].0 == k2);
                            } else {
                                assert(s1[j - 1].0 == k2);
                            }
                        }
                        assert forall|k2: KeyView| #[trigger]
                            seq_as_map(s1).contains_key(k2) implies seq_as_map(s1)[k2]
                            == old(self)@.remove(k)[k2] by {
                            let j = choose|j: int|
                                0 <= j < s1.len() && (#[trigger] s1[j]).0 == k2;
                            lemma_key_index(s1, j);
                            if j < i {
                                lemma_key_index(s0, j);
                                assert(s1[j] == s0[j]);
                            } else {
                                lemma_key_index(s0, j + 1);
                                assert(s1[j] == s0[j + 1]);
                            }
                        }
                    }
                }
                Some(e.1)
            },
            None => {
                proof {
                    assert(final(self)@ =~= old(self)@.remove(key@));
                }
                None
            },
        }
    }
}

/// The character sequence behind an optional borrowed string.
pub open spec fn opt_str_view(o: Option<&String>) -> Option<Seq<char>> {
    match o {
        Some(s) => Some(s@),
        None => None,
    }
}

/// The component of a key that a range scan pages over: the third component
/// under a two-component prefix, the second under a one-component prefix.
pub open spec fn scan_cursor(k: KeyView, two_component_prefix: bool) -> Seq<char> {
    if two_component_prefix {
        k.2
    } else {
        k.1
    }
}

/// Whether key `k` falls in the scanned range: its first component equals `a`,
/// its second equals `b` when one is given, and its cursor component lies
/// strictly after `start` when a start key is given.
pub open spec fn scan_matches(
    k: KeyView,
    a: Seq<char>,
    b: Option<Seq<char>>,
    start: Option<Seq<char>>,
) -> bool {
    &&& k.0 == a
    &&& (b matches Some(bb) ==> k.1 == bb)
    &&& (start matches Some(st) ==> crate::order::seq_lt(st, scan_cursor(k, b is Some)))
}

impl<V: View> Store<V> {
    /// The positions, in ascending store order, of the first entries (at most
    /// `limit` of them) whose keys share the prefix `a` (and `b`, when given)
    /// and whose cursor component lies strictly after `start_after`.
    pub fn scan(
        &self,
        a: &String,
        b: Option<&String>,
        start_after: Option<&String>,
        limit: usize,
    ) -> (r: Vec<usize>)
        requires
            self.inv(),
        ensures
            r@.len() <= limit,
            forall|n: int|
                0 <= n < r@.len() ==> #[trigger] r@[n] < self.entry_seq().len() && scan_matches(
                    self.entry_seq()[r@[n] as int].0,
                    a@,
                    opt_str_view(b),
                    opt_str_view(start_after),
                ),
            forall|n: int, m: int| 0 <= n < m < r@.len() ==> #[trigger] r@[n] < #[trigger] r@[m],
            forall|j: int|
                0 <= j < self.entry_seq().len() && scan_matches(
                    (#[trigger] self.entry_seq()[j]).0,
                    a@,
                    opt_str_view(b),
                    opt_str_view(start_after),
                ) ==> (exists|n: int| 0 <= n < r@.len() && r@[n] == j) || (r@.len() == limit
                    && forall|m: int| 0 <= m < r@.len() ==> #[trigger] r@[m] < j),
    {
        let ghost s = self.entry_seq();
        let ghost bv: Option<Seq<char>> = opt_str_view(b);
        let ghost stv: Option<Seq<char>> = opt_str_view(start_after);
        let n = self.entries.len();
        let mut r: Vec<usize> = Vec::new();
        let mut i: usize = 0;
        while i < n && r.len() < limit
            invariant
                i <= n,
                n == s.len(),
                s == self.entry_seq(),
                bv == opt_str_view(b),
                stv == opt_str_view(start_after),
                r@.len() <= limit,
                forall|p: int|
                    0 <= p < r@.len() ==> #[trigger] r@[p] < i && scan_matches(
                        s[r@[p] as int].0,
                        a@,
                        bv,
                        stv,
                    ),
                forall|p: int, q: int| 0 <= p < q < r@.len() ==> #[trigger] r@[p] < #[trigger] r@[q],
                forall|j: int|
                    0 <= j < i && scan_matches((#[trigger] s[j]).0, a@, bv, stv) ==> (exists|p: int|
                        0 <= p < r@.len() && r@[p] == j) || (r@.len() == limit && forall|m: int|
                        0 <= m < r@.len() ==> #[trigger] r@[m] < j),
            decreases n - i,
        {
            let e = &self.entries[i];
            let cursor: &String = match b {
                Some(_) => &e.0.c,
                None => &e.0.b,
            };
            let a_ok = e.0.a == *a;
            let b_ok = match b {
                Some(bb) => e.0.b == *bb,
                None => true,
            };
            let st_ok = match start_after {
                Some(st) => crate::order::str_lt(st.as_str(), cursor.as_str()),
                None => true,
            };
            let is_match = a_ok && b_ok && st_ok;
            proof {
                assert(s[i as int].0 == (e.0.a@, e.0.b@, e.0.c@));
                assert(is_match == scan_matches(s[i as int].0, a@, bv, stv));
            }
            let ghost r0 = r@;
            if is_match {
                r.push(i);
            }
            proof {
                if is_match {
                    assert(r@ == r0.push(i as usize));
                    assert(forall|p: int| 0 <= p < r0.len() ==> #[trigger] r@[p] == r0[p]);
                    assert(r@[r@.len() - 1] == i as usize);
                }
                assert forall|j: int|
                    0 <= j < i + 1 && scan_matches((#[trigger] s[j]).0, a@, bv, stv) implies (
                exists|p: int| 0 <= p < r@.len() && r@[p] == j) by {
                    if j < i {
                        assert(r0.len() < limit);
                        let p = choose|p: int| 0 <= p < r0.len() && r0[p] == j;
                        assert(r@[p] == j);
                    } else {
                        assert(is_match);
                        assert(r@[r@.len() - 1] == i as usize);
                    }
                }
            }
            i += 1;
        }
        proof {
            assert forall|j: int|
                0 <= j < s.len() && scan_matches((#[trigger] s[j]).0, a@, bv, stv) implies (
            exists|p: int| 0 <= p < r@.len() && r@[p] == j) || (r@.len() == limit && forall|m: int|
                0 <= m < r@.len() ==> #[trigger] r@[m] < j) by {
                if j >= i {
                    assert(r@.len() == limit);
                    assert(forall|m: int| 0 <= m < r@.len() ==> #[trigger] r@[m] < i);
                }
            }
        }
        r
    }
}

/// The map view of a store reads exactly its entry sequence.
pub proof fn lemma_store_view<V: View>(s: &Store<V>)
    ensures
        s@ == seq_as_map(s.entry_seq()),
{
}

/// Law: no two live entries of a well-formed store share a key.
pub proof fn lemma_store_keys_unique<V: View>(s: &Store<V>, i: int, j: int)
    requires
        s.inv(),
        0 <= i < j < s.entry_seq().len(),
    ensures
        s.entry_seq()[i].0 != s.entry_seq()[j].0,
{
    lemma_key_lt_trichotomy(s.entry_seq()[i].0, s.entry_seq()[j].0);
}

} // verus!
