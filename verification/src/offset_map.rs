//! A map from file offsets to values, kept in offset order.
//!
//! Pending edits, switched-off edits and comments are held here rather than
//! in a `HashMap`: the patches list and reverting a range walk the entries
//! in offset order, and the order in which a
//! `HashMap` is walked is not a function of its contents, so no contract
//! could say what those walks produce. Keeping the entries sorted makes that
//! order part of the value.
use vstd::prelude::*;

verus! {

/// Entries sorted by strictly increasing offset.
pub open spec fn sorted_keys<V>(e: Seq<(usize, V)>) -> bool {
    forall|i: int, j: int| 0 <= i < j < e.len() ==> (#[trigger] e[i]).0 < (#[trigger] e[j]).0
}

/// Whether some entry of `e` has offset `k`.
pub open spec fn has_key<V>(e: Seq<(usize, V)>, k: usize) -> bool {
    exists|i: int| 0 <= i < e.len() && (#[trigger] e[i]).0 == k
}

/// The value `e` holds for `k`.
pub open spec fn value_of<V>(e: Seq<(usize, V)>, k: usize) -> V {
    e[choose|i: int| 0 <= i < e.len() && (#[trigger] e[i]).0 == k].1
}

/// The map that the entries `e` stand for.
pub open spec fn map_of<V>(e: Seq<(usize, V)>) -> Map<usize, V> {
    Map::new(|k: usize| has_key(e, k), |k: usize| value_of(e, k))
}

/// The offsets of `e`, in order.
pub open spec fn keys_of<V>(e: Seq<(usize, V)>) -> Seq<usize> {
    e.map_values(|x: (usize, V)| x.0)
}

/// In sorted entries an offset sits at one index only, so the map holds the value
/// found there.
pub proof fn lemma_entry_value<V>(e: Seq<(usize, V)>, i: int)
    requires
        sorted_keys(e),
        0 <= i < e.len(),
    ensures
        map_of(e).contains_key(e[i].0),
        map_of(e)[e[i].0] == e[i].1,
{
    let k = e[i].0;
    assert(has_key(e, k));
    let j = choose|j: int| 0 <= j < e.len() && (#[trigger] e[j]).0 == k;
    if j < i {
        assert(e[j].0 < e[i].0);
    } else if j > i {
        assert(e[i].0 < e[j].0);
    }
}

/// A map from file offsets to values.
pub struct OffsetMap<V> {
    entries: Vec<(usize, V)>,
}

impl<V> View for OffsetMap<V> {
    type V = Map<usize, V>;

    closed spec fn view(&self) -> Map<usize, V> {
        map_of(self.entries@)
    }
}

impl<V> OffsetMap<V> {
    #[verifier::type_invariant]
    pub closed spec fn wf(self) -> bool {
        sorted_keys(self.entries@)
    }

    /// The offsets held, in increasing order.
    pub closed spec fn key_seq(self) -> Seq<usize> {
        keys_of(self.entries@)
    }

    /// The offsets held are increasing, free of repeats, and exactly the domain.
    pub proof fn lemma_keys(self)
        requires
            self.wf(),
        ensures
            forall|i: int, j: int|
                0 <= i < j < self.key_seq().len() ==> self.key_seq()[i] < self.key_seq()[j],
            forall|i: int|
                0 <= i < self.key_seq().len() ==> self@.contains_key(#[trigger] self.key_seq()[i]),
            forall|k: usize|
                #[trigger] self@.contains_key(k) ==> self.key_seq().contains(k),
            self@.dom().finite(),
            self@.dom().len() == self.key_seq().len(),
    {
        let e = self.entries@;
        let ks = self.key_seq();
        assert forall|i: int, j: int| 0 <= i < j < ks.len() implies ks[i] < ks[j] by {
            assert(e[i].0 < e[j].0);
        }
        assert forall|i: int| 0 <= i < ks.len() implies self@.contains_key(#[trigger] ks[i]) by {
            assert(e[i].0 == ks[i]);
            assert(has_key(e, ks[i]));
        }
        assert forall|k: usize| #[trigger] self@.contains_key(k) implies ks.contains(k) by {
            let i = choose|i: int| 0 <= i < e.len() && (#[trigger] e[i]).0 == k;
            assert(ks[i] == k);
        }
        assert(ks.no_duplicates()) by {
            assert forall|i: int, j: int| 0 <= i < ks.len() && 0 <= j < ks.len() && i != j implies ks[i]
                != ks[j] by {
                if i < j {
                    assert(e[i].0 < e[j].0);
                } else {
                    assert(e[j].0 < e[i].0);
                }
            }
        }
        assert(self@.dom() =~= ks.to_set());
        ks.unique_seq_to_set();
    }

    /// An empty map.
    pub fn new() -> (m: Self)
        ensures
            m@ == Map::<usize, V>::empty(),
    {
        let m = OffsetMap { entries: Vec::new() };
        assert(m@ =~= Map::<usize, V>::empty());
        m
    }

    /// Number of offsets held.
    pub fn len(&self) -> (n: usize)
        ensures
            n == self@.dom().len(),
            n == self.key_seq().len(),
    {
        proof {
            use_type_invariant(self);
            self.lemma_keys();
        }
        self.entries.len()
    }

    pub fn is_empty(&self) -> (b: bool)
        ensures
            b == (self@.dom().len() == 0),
            b == (self@ == Map::<usize, V>::empty()),
    {
        proof {
            use_type_invariant(self);
            self.lemma_keys();
            if self.entries@.len() > 0 {
                lemma_entry_value(self.entries@, 0);
            } else {
                assert(self@ =~= Map::<usize, V>::empty());
            }
        }
        self.entries.len() == 0
    }

    /// Index of `k` among the entries, if held.
    fn find(&self, k: usize) -> (r: Option<usize>)
        ensures
            match r {
                Some(i) => i < self.entries@.len() && self.entries@[i as int].0 == k,
                None => !self@.contains_key(k),
            },
    {
        let mut i: usize = 0;
        while i < self.entries.len()
            invariant
                i <= self.entries@.len(),
                forall|j: int| 0 <= j < i ==> (#[trigger] self.entries@[j]).0 != k,
            decreases self.entries@.len() - i,
        {
            if self.entries[i].0 == k {
                return Some(i);
            }
            i = i + 1;
        }
        None
    }

    pub fn contains_key(&self, k: &usize) -> (b: bool)
        ensures
            b == self@.contains_key(*k),
    {
        proof {
            use_type_invariant(self);
        }
        match self.find(*k) {
            Some(i) => {
                proof {
                    lemma_entry_value(self.entries@, i as int);
                }
                true
            },
            None => false,
        }
    }

    pub fn get(&self, k: &usize) -> (r: Option<&V>)
        ensures
            match r {
                Some(v) => self@.contains_key(*k) && self@[*k] == *v,
                None => !self@.contains_key(*k),
            },
    {
        proof {
            use_type_invariant(self);
        }
        match self.find(*k) {
            Some(i) => {
                proof {
                    lemma_entry_value(self.entries@, i as int);
                }
                Some(&self.entries[i].1)
            },
            None => None,
        }
    }

    /// Sets the value at `k`, returning the one it replaced.
    pub fn insert(&mut self, k: usize, v: V) -> (r: Option<V>)
        ensures
            final(self)@ == old(self)@.insert(k, v),
            match r {
                Some(x) => old(self)@.contains_key(k) && old(self)@[k] == x,
                None => !old(self)@.contains_key(k),
            },
    {
        proof {
            use_type_invariant(&*self);
        }
        let ghost e0 = self.entries@;
        let mut i: usize = 0;
        while i < self.entries.len() && self.entries[i].0 < k
            invariant
                i <= self.entries@.len(),
                self.entries@ == e0,
                sorted_keys(e0),
                forall|j: int| 0 <= j < i ==> (#[trigger] e0[j]).0 < k,
            decreases self.entries@.len() - i,
        {
            i = i + 1;
        }
        if i < self.entries.len() && self.entries[i].0 == k {
            let mut entries: Vec<(usize, V)> = Vec::new();
            std::mem::swap(&mut entries, &mut self.entries);
            let (_, old_v) = entries.remove(i);
            entries.insert(i, (k, v));
            let ghost e1 = entries@;
            assert(e1 =~= e0.update(i as int, (k, v)));
            proof {
                lemma_entry_value(e0, i as int);
                assert(sorted_keys(e1)) by {
                    assert forall|a: int, b: int| 0 <= a < b < e1.len() implies (#[trigger] e1[a]).0
                        < (#[trigger] e1[b]).0 by {
                        assert(e0[a].0 < e0[b].0);
                    }
                }
                assert forall|key: usize| #[trigger] map_of(e1).contains_key(key)
                    == map_of(e0).insert(k, v).contains_key(key) by {
                    if has_key(e1, key) {
                        let a = choose|a: int| 0 <= a < e1.len() && (#[trigger] e1[a]).0 == key;
                        if a != i {
                            assert(e0[a].0 == key);
                        }
                    }
                    if has_key(e0, key) && key != k {
                        let a = choose|a: int| 0 <= a < e0.len() && (#[trigger] e0[a]).0 == key;
                        assert(e1[a].0 == key);
                    }
                    if key == k {
                        assert(e1[i as int].0 == k);
                    }
                }
                assert forall|key: usize| #[trigger] map_of(e1).contains_key(key) implies map_of(
                    e1,
                )[key] == map_of(e0).insert(k, v)[key] by {
                    let a = choose|a: int| 0 <= a < e1.len() && (#[trigger] e1[a]).0 == key;
                    lemma_entry_value(e1, a);
                    if a != i {
                        lemma_entry_value(e0, a);
                    }
                }
                assert(map_of(e1) =~= map_of(e0).insert(k, v));
            }
            self.entries = entries;
            Some(old_v)
        } else {
            proof {
                if i < e0.len() {
                    assert(e0[i as int].0 > k);
                }
                assert(!has_key(e0, k)) by {
                    if has_key(e0, k) {
                        let a = choose|a: int| 0 <= a < e0.len() && (#[trigger] e0[a]).0 == k;
                        if a >= i {
                            if a > i {
                                assert(e0[i as int].0 < e0[a].0);
                            }
                        }
                    }
                }
            }
            let mut entries: Vec<(usize, V)> = Vec::new();
            std::mem::swap(&mut entries, &mut self.entries);
            entries.insert(i, (k, v));
            let ghost e1 = entries@;
            assert(e1 =~= e0.insert(i as int, (k, v)));
            proof {
                assert(sorted_keys(e1)) by {
                    assert forall|a: int, b: int| 0 <= a < b < e1.len() implies (#[trigger] e1[a]).0
                        < (#[trigger] e1[b]).0 by {
                        if b < i {
                            assert(e0[a].0 < e0[b].0);
                        } else if b == i {
                            assert(e0[a].0 < k);
                        } else if a == i {
                            assert(e1[b] == e0[b - 1]);
                            if b - 1 > i {
                                assert(e0[i as int].0 < e0[b - 1].0);
                            }
                        } else if a < i {
                            assert(e0[a].0 < e0[b - 1].0);
                        } else {
                            assert(e0[a - 1].0 < e0[b - 1].0);
                        }
                    }
                }
                assert forall|key: usize| #[trigger] map_of(e1).contains_key(key)
                    == map_of(e0).insert(k, v).contains_key(key) by {
                    if has_key(e1, key) {
                        let a = choose|a: int| 0 <= a < e1.len() && (#[trigger] e1[a]).0 == key;
                        if a < i {
                            assert(e0[a].0 == key);
                        } else if a > i {
                            assert(e0[a - 1].0 == key);
                        }
                    }
                    if has_key(e0, key) {
                        let a = choose|a: int| 0 <= a < e0.len() && (#[trigger] e0[a]).0 == key;
                        if a < i {
                            assert(e1[a].0 == key);
                        } else {
                            assert(e1[a + 1].0 == key);
                        }
                    }
                    if key == k {
                        assert(e1[i as int].0 == k);
                    }
                }
                assert forall|key: usize| #[trigger] map_of(e1).contains_key(key) implies map_of(
                    e1,
                )[key] == map_of(e0).insert(k, v)[key] by {
                    let a = choose|a: int| 0 <= a < e1.len() && (#[trigger] e1[a]).0 == key;
                    lemma_entry_value(e1, a);
                    if a < i {
                        lemma_entry_value(e0, a);
                    } else if a > i {
                        lemma_entry_value(e0, a - 1);
                    }
                }
                assert(map_of(e1) =~= map_of(e0).insert(k, v));
            }
            self.entries = entries;
            None
        }
    }

    /// Drops the value at `k`, returning it.
    pub fn remove(&mut self, k: &usize) -> (r: Option<V>)
        ensures
            final(self)@ == old(self)@.remove(*k),
            match r {
                Some(x) => old(self)@.contains_key(*k) && old(self)@[*k] == x,
                None => !old(self)@.contains_key(*k),
            },
    {
        proof {
            use_type_invariant(&*self);
        }
        let ghost e0 = self.entries@;
        match self.find(*k) {
            None => {
                assert(map_of(e0) =~= map_of(e0).remove(*k));
                None
            },
            Some(i) => {
                proof {
                    lemma_entry_value(e0, i as int);
                }
                let mut entries: Vec<(usize, V)> = Vec::new();
            std::mem::swap(&mut entries, &mut self.entries);
                let (_, v) = entries.remove(i);
                let ghost e1 = entries@;
                assert(e1 =~= e0.remove(i as int));
                proof {
                    assert(sorted_keys(e1)) by {
                        assert forall|a: int, b: int| 0 <= a < b < e1.len() implies (#[trigger] e1[
                            a]).0 < (#[trigger] e1[b]).0 by {
                            if b < i {
                                assert(e0[a].0 < e0[b].0);
                            } else if a < i {
                                assert(e0[a].0 < e0[b + 1].0);
                            } else {
                                assert(e0[a + 1].0 < e0[b + 1].0);
                            }
                        }
                    }
                    assert forall|key: usize| #[trigger] map_of(e1).contains_key(key)
                        == map_of(e0).remove(*k).contains_key(key) by {
                        if has_key(e1, key) {
                            let a = choose|a: int| 0 <= a < e1.len() && (#[trigger] e1[a]).0 == key;
                            if a < i {
                                assert(e0[a].0 == key);
                                assert(e0[a].0 < e0[i as int].0);
                            } else {
                                assert(e0[a + 1].0 == key);
                                assert(e0[i as int].0 < e0[a + 1].0);
                            }
                        }
                        if has_key(e0, key) && key != *k {
                            let a = choose|a: int| 0 <= a < e0.len() && (#[trigger] e0[a]).0 == key;
                            if a < i {
                                assert(e1[a].0 == key);
                            } else {
                                assert(a != i);
                                assert(e1[a - 1].0 == key);
                            }
                        }
                    }
                    assert forall|key: usize| #[trigger] map_of(e1).contains_key(key) implies map_of(
                        e1,
                    )[key] == map_of(e0).remove(*k)[key] by {
                        let a = choose|a: int| 0 <= a < e1.len() && (#[trigger] e1[a]).0 == key;
                        lemma_entry_value(e1, a);
                        if a < i {
                            lemma_entry_value(e0, a);
                        } else {
                            lemma_entry_value(e0, a + 1);
                        }
                    }
                    assert(map_of(e1) =~= map_of(e0).remove(*k));
                }
                self.entries = entries;
                Some(v)
            },
        }
    }

    /// Drops every entry.
    pub fn clear(&mut self)
        ensures
            final(self)@ == Map::<usize, V>::empty(),
    {
        self.entries = Vec::new();
        assert(self@ =~= Map::<usize, V>::empty());
    }

    /// The offsets held, in increasing order.
    pub fn keys(&self) -> (ks: Vec<usize>)
        ensures
            ks@ == self.key_seq(),
    {
        let mut ks: Vec<usize> = Vec::new();
        let mut i: usize = 0;
        while i < self.entries.len()
            invariant
                i <= self.entries@.len(),
                ks@ == keys_of(self.entries@).take(i as int),
            decreases self.entries@.len() - i,
        {
            ks.push(self.entries[i].0);
            i = i + 1;
            assert(ks@ =~= keys_of(self.entries@).take(i as int));
        }
        assert(keys_of(self.entries@).take(i as int) =~= keys_of(self.entries@));
        ks
    }

    /// The value at the `i`-th offset in increasing order.
    pub fn value_at(&self, i: usize) -> (v: &V)
        requires
            i < self.key_seq().len(),
        ensures
            self@.contains_key(self.key_seq()[i as int]),
            *v == self@[self.key_seq()[i as int]],
    {
        proof {
            use_type_invariant(self);
            lemma_entry_value(self.entries@, i as int);
        }
        &self.entries[i].1
    }
}

} // verus!
