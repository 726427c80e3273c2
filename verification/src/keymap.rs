//! A small verified association list: the storage maps of the room pallet.
//!
//! Entries keep the order in which their keys were first inserted; that order is
//! the order in which the pallet walks its rooms.
use vstd::prelude::*;

verus! {

/// Keys whose run-time comparison means spec equality.
pub trait MapKey: Copy + Sized {
    fn same_key(&self, other: &Self) -> (r: bool)
        ensures
            r == (*self == *other),
    ;
}

impl MapKey for u32 {
    fn same_key(&self, other: &Self) -> (r: bool) {
        *self == *other
    }
}

impl MapKey for [u8; 32] {
    fn same_key(&self, other: &Self) -> (r: bool) {
        let mut i: usize = 0;
        while i < 32
            invariant
                0 <= i <= 32,
                forall|j: int| 0 <= j < i ==> self[j] == other[j],
            decreases 32 - i,
        {
            if self[i] != other[i] {
                return false;
            }
            i = i + 1;
        }
        assert(*self =~= *other);
        true
    }
}

/// The map that a sequence of entries denotes: a later entry for a key wins.
pub open spec fn entries_map<K, V>(s: Seq<(K, V)>) -> Map<K, V>
    decreases s.len(),
{
    if s.len() == 0 {
        Map::empty()
    } else {
        entries_map(s.drop_last()).insert(s.last().0, s.last().1)
    }
}

/// The keys of a sequence of entries, in order.
pub open spec fn entry_keys<K, V>(s: Seq<(K, V)>) -> Seq<K> {
    s.map_values(|e: (K, V)| e.0)
}

/// No key occurs in two entries.
pub open spec fn distinct_keys<K, V>(s: Seq<(K, V)>) -> bool {
    forall|i: int, j: int| 0 <= i < s.len() && 0 <= j < s.len() && i != j ==> s[i].0 != s[j].0
}

pub proof fn lemma_entries_map_dom<K, V>(s: Seq<(K, V)>, k: K)
    ensures
        entries_map(s).dom().contains(k) <==> exists|i: int| 0 <= i < s.len() && s[i].0 == k,
    decreases s.len(),
{
    if s.len() > 0 {
        lemma_entries_map_dom(s.drop_last(), k);
        if entries_map(s).dom().contains(k) && k != s.last().0 {
            let i = choose|i: int| 0 <= i < s.len() - 1 && s.drop_last()[i].0 == k;
            assert(s[i].0 == k);
        }
        if exists|i: int| 0 <= i < s.len() && s[i].0 == k {
            let i = choose|i: int| 0 <= i < s.len() && s[i].0 == k;
            if i < s.len() - 1 {
                assert(s.drop_last()[i].0 == k);
            }
        }
    }
}

pub proof fn lemma_entries_map_index<K, V>(s: Seq<(K, V)>, i: int)
    requires
        distinct_keys(s),
        0 <= i < s.len(),
    ensures
        entries_map(s).dom().contains(s[i].0),
        entries_map(s)[s[i].0] == s[i].1,
    decreases s.len(),
{
    lemma_entries_map_dom(s, s[i].0);
    if i < s.len() - 1 {
        assert(s.drop_last()[i] == s[i]);
        lemma_entries_map_index(s.drop_last(), i);
    }
}

pub proof fn lemma_entries_map_update<K, V>(s: Seq<(K, V)>, i: int, v: V)
    requires
        distinct_keys(s),
        0 <= i < s.len(),
    ensures
        entries_map(s.update(i, (s[i].0, v))) == entries_map(s).insert(s[i].0, v),
        distinct_keys(s.update(i, (s[i].0, v))),
    decreases s.len(),
{
    let t = s.update(i, (s[i].0, v));
    if i == s.len() - 1 {
        assert(t.drop_last() =~= s.drop_last());
        assert(entries_map(t) =~= entries_map(s).insert(s[i].0, v));
    } else {
        assert(t.drop_last() =~= s.drop_last().update(i, (s[i].0, v)));
        lemma_entries_map_update(s.drop_last(), i, v);
        assert(s.drop_last()[i] == s[i]);
        assert(entries_map(t) =~= entries_map(s).insert(s[i].0, v));
    }
}

pub proof fn lemma_entries_map_remove<K, V>(s: Seq<(K, V)>, i: int)
    requires
        distinct_keys(s),
        0 <= i < s.len(),
    ensures
        entries_map(s.remove(i)) == entries_map(s).remove(s[i].0),
        distinct_keys(s.remove(i)),
    decreases s.len(),
{
    let t = s.remove(i);
    if i == s.len() - 1 {
        assert(t =~= s.drop_last());
        lemma_entries_map_dom(s.drop_last(), s[i].0);
        assert(!entries_map(s.drop_last()).dom().contains(s[i].0)) by {
            if entries_map(s.drop_last()).dom().contains(s[i].0) {
                let j = choose|j: int| 0 <= j < s.len() - 1 && s.drop_last()[j].0 == s[i].0;
                assert(s[j].0 == s[i].0);
            }
        }
        assert(entries_map(t) =~= entries_map(s).remove(s[i].0));
    } else {
        assert(t.drop_last() =~= s.drop_last().remove(i));
        assert(t.last() == s.last());
        lemma_entries_map_remove(s.drop_last(), i);
        assert(s.drop_last()[i] == s[i]);
        assert(s.last().0 != s[i].0);
        assert(entries_map(t) =~= entries_map(s).remove(s[i].0));
    }
}

pub proof fn lemma_entries_map_push<K, V>(s: Seq<(K, V)>, k: K, v: V)
    requires
        distinct_keys(s),
        !entries_map(s).dom().contains(k),
    ensures
        entries_map(s.push((k, v))) == entries_map(s).insert(k, v),
        distinct_keys(s.push((k, v))),
{
    assert(s.push((k, v)).drop_last() =~= s);
    lemma_entries_map_dom(s, k);
    assert forall|i: int, j: int|
        0 <= i < s.len() + 1 && 0 <= j < s.len() + 1 && i != j implies s.push((k, v))[i].0 != s.push(
        (k, v),
    )[j].0 by {
        if i < s.len() && j < s.len() {
        } else if i == s.len() {
            assert(s[j].0 != k);
        } else {
            assert(s[i].0 != k);
        }
    }
}

/// The entries with `f` applied to each value.
pub open spec fn map_entry_values<K, V>(s: Seq<(K, V)>, f: spec_fn(V) -> V) -> Seq<(K, V)> {
    Seq::new(s.len(), |k: int| (s[k].0, f(s[k].1)))
}

pub proof fn lemma_entries_map_map_values<K, V>(s: Seq<(K, V)>, f: spec_fn(V) -> V)
    ensures
        entries_map(map_entry_values(s, f)) == entries_map(s).map_values(f),
    decreases s.len(),
{
    let t = map_entry_values(s, f);
    if s.len() == 0 {
        assert(entries_map(t) =~= entries_map(s).map_values(f));
    } else {
        assert(t.drop_last() =~= map_entry_values(s.drop_last(), f));
        lemma_entries_map_map_values(s.drop_last(), f);
        assert(entries_map(t) =~= entries_map(s).map_values(f));
    }
}

/// An association list keyed by `K`, with no key twice.
pub struct KeyMap<K, V> {
    entries: Vec<(K, V)>,
}

impl<K: MapKey, V> KeyMap<K, V> {
    /// The entries, in order.
    pub closed spec fn entries(&self) -> Seq<(K, V)> {
        self.entries@
    }

    /// The map the entries denote.
    pub open spec fn view(&self) -> Map<K, V> {
        entries_map(self.entries())
    }

    pub open spec fn wf(&self) -> bool {
        distinct_keys(self.entries())
    }

    pub fn new() -> (m: Self)
        ensures
            m.wf(),
            m.entries() == Seq::<(K, V)>::empty(),
            m.view() == Map::<K, V>::empty(),
    {
        KeyMap { entries: Vec::new() }
    }

    pub fn len(&self) -> (n: usize)
        ensures
            n == self.entries().len(),
    {
        self.entries.len()
    }

    /// The entry at position `i`.
    pub fn entry_at(&self, i: usize) -> (e: &(K, V))
        requires
            i < self.entries().len(),
        ensures
            *e == self.entries()[i as int],
    {
        &self.entries[i]
    }

    /// Where `k` stands among the entries, if anywhere.
    pub fn find(&self, k: &K) -> (r: Option<usize>)
        requires
            self.wf(),
        ensures
            match r {
                Some(i) => i < self.entries().len() && self.entries()[i as int].0 == *k
                    && self.view().dom().contains(*k) && self.view()[*k] == self.entries()[i as int].1,
                None => !self.view().dom().contains(*k),
            },
    {
        let mut i: usize = 0;
        while i < self.entries.len()
            invariant
                0 <= i <= self.entries@.len(),
                distinct_keys(self.entries@),
                forall|j: int| 0 <= j < i ==> self.entries@[j].0 != *k,
            decreases self.entries@.len() - i,
        {
            if self.entries[i].0.same_key(k) {
                proof {
                    lemma_entries_map_index(self.entries@, i as int);
                }
                return Some(i);
            }
            i = i + 1;
        }
        proof {
            lemma_entries_map_dom(self.entries@, *k);
        }
        None
    }

    pub fn contains_key(&self, k: &K) -> (b: bool)
        requires
            self.wf(),
        ensures
            b == self.view().dom().contains(*k),
    {
        self.find(k).is_some()
    }

    pub fn get(&self, k: &K) -> (r: Option<&V>)
        requires
            self.wf(),
        ensures
            match r {
                Some(v) => self.view().dom().contains(*k) && self.view()[*k] == *v,
                None => !self.view().dom().contains(*k),
            },
    {
        match self.find(k) {
            Some(i) => Some(&self.entries[i].1),
            None => None,
        }
    }

    /// Sets the value of `k`: in place where the key stands, at the end where it is new.
    pub fn insert(&mut self, k: K, v: V)
        requires
            old(self).wf(),
        ensures
            final(self).wf(),
            final(self).view() == old(self).view().insert(k, v),
            old(self).view().dom().contains(k) ==> entry_keys(final(self).entries()) == entry_keys(
                old(self).entries(),
            ),
            !old(self).view().dom().contains(k) ==> entry_keys(final(self).entries()) == entry_keys(
                old(self).entries(),
            ).push(k),
    {
        match self.find(&k) {
            Some(i) => {
                proof {
                    lemma_entries_map_update(self.entries@, i as int, v);
                }
                let ghost s = self.entries@;
                self.entries.set(i, (k, v));
                assert(self.entries@ == s.update(i as int, (s[i as int].0, v)));
                assert(entry_keys(self.entries@) =~= entry_keys(s));
            },
            None => {
                proof {
                    lemma_entries_map_push(self.entries@, k, v);
                }
                let ghost s = self.entries@;
                self.entries.push((k, v));
                assert(entry_keys(self.entries@) =~= entry_keys(s).push(k));
            },
        }
    }

    /// Sets the value of the entry at position `i`, keeping its key and place.
    pub fn set_value_at(&mut self, i: usize, v: V)
        requires
            old(self).wf(),
            i < old(self).entries().len(),
        ensures
            final(self).wf(),
            final(self).entries() == old(self).entries().update(
                i as int,
                (old(self).entries()[i as int].0, v),
            ),
            final(self).view() == old(self).view().insert(old(self).entries()[i as int].0, v),
    {
        proof {
            lemma_entries_map_update(self.entries@, i as int, v);
        }
        let k = self.entries[i].0;
        self.entries.set(i, (k, v));
    }

    pub fn remove(&mut self, k: &K)
        requires
            old(self).wf(),
        ensures
            final(self).wf(),
            final(self).view() == old(self).view().remove(*k),
    {
        match self.find(k) {
            Some(i) => {
                proof {
                    lemma_entries_map_remove(self.entries@, i as int);
                }
                self.entries.remove(i);
            },
            None => {
                assert(self.view() =~= self.view().remove(*k));
            },
        }
    }
}

} // verus!
