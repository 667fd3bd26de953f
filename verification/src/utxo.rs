//! The set of unspent outputs: a map from hashes to outputs.

use crate::models::{TxOut, TxOutView};
use vstd::prelude::*;

verus! {

/// The keys of a list of entries, in order.
pub open spec fn entry_keys(entries: Seq<(crate::sha256::Hash, TxOut)>) -> Seq<crate::sha256::Hash> {
    entries.map_values(|e: (crate::sha256::Hash, TxOut)| e.0)
}

/// The map that a list of entries with distinct keys stands for.
pub open spec fn entries_map(entries: Seq<(crate::sha256::Hash, TxOut)>) -> Map<
    crate::sha256::Hash,
    TxOutView,
> {
    Map::new(
        |h: crate::sha256::Hash| entry_keys(entries).contains(h),
        |h: crate::sha256::Hash| entries[entry_keys(entries).index_of(h)].1@,
    )
}

/// The entry at index `i` is what the map holds under its key.
proof fn lemma_entry(entries: Seq<(crate::sha256::Hash, TxOut)>, i: int)
    requires
        entry_keys(entries).no_duplicates(),
        0 <= i < entries.len(),
    ensures
        entries_map(entries).dom().contains(entries[i].0),
        entries_map(entries)[entries[i].0] == entries[i].1@,
{
    assert(entry_keys(entries)[i] == entries[i].0);
}

/// A list of entries with distinct keys stands for a map of as many keys.
proof fn lemma_entries_len(entries: Seq<(crate::sha256::Hash, TxOut)>)
    requires
        entry_keys(entries).no_duplicates(),
    ensures
        entries_map(entries).dom().finite(),
        entries_map(entries).dom().len() == entries.len(),
{
    let keys = entry_keys(entries);
    keys.unique_seq_to_set();
    assert(entries_map(entries).dom() =~= keys.to_set());
}

/// A finite map from hashes to outputs. Each key occurs once.
#[derive(Debug)]
pub struct UtxoSet {
    entries: Vec<(crate::sha256::Hash, TxOut)>,
}

impl View for UtxoSet {
    type V = Map<crate::sha256::Hash, TxOutView>;

    closed spec fn view(&self) -> Map<crate::sha256::Hash, TxOutView> {
        entries_map(self.entries@)
    }
}

impl Clone for UtxoSet {
    fn clone(&self) -> (r: Self)
        ensures
            r@ == self@,
    {
        proof {
            use_type_invariant(self);
        }
        let mut entries: Vec<(crate::sha256::Hash, TxOut)> = Vec::new();
        let mut i: usize = 0;
        while i < self.entries.len()
            invariant
                i <= self.entries@.len(),
                entries@.len() == i,
                forall|k: int|
                    0 <= k < i ==> (#[trigger] entries@[k]).0 == self.entries@[k].0 && entries@[k].1@
                        == self.entries@[k].1@,
            decreases self.entries@.len() - i,
        {
            entries.push((self.entries[i].0, self.entries[i].1.clone()));
            i += 1;
        }
        proof {
            assert(entry_keys(entries@) =~= entry_keys(self.entries@));
            assert forall|h: crate::sha256::Hash|
                entries_map(self.entries@).dom().contains(h) implies #[trigger] entries_map(
                entries@,
            )[h] == entries_map(self.entries@)[h] by {
                let j = entry_keys(self.entries@).index_of(h);
                lemma_entry(entries@, j);
                lemma_entry(self.entries@, j);
            }
            assert(entries_map(entries@) =~= entries_map(self.entries@));
        }
        UtxoSet { entries }
    }
}

impl UtxoSet {
    #[verifier::type_invariant]
    spec fn distinct_keys(self) -> bool {
        entry_keys(self.entries@).no_duplicates()
    }

    /// The empty map.
    pub fn new() -> (r: UtxoSet)
        ensures
            r@ == Map::<crate::sha256::Hash, TxOutView>::empty(),
    {
        let r = UtxoSet { entries: Vec::new() };
        assert(r@ =~= Map::<crate::sha256::Hash, TxOutView>::empty());
        r
    }

    /// Where `key` stands among the entries, if it does.
    fn position(&self, key: &crate::sha256::Hash) -> (r: Option<usize>)
        ensures
            match r {
                Some(i) => i < self.entries@.len() && self.entries@[i as int].0 == *key,
                None => !entry_keys(self.entries@).contains(*key),
            },
    {
        let mut i: usize = 0;
        while i < self.entries.len()
            invariant
                i <= self.entries@.len(),
                forall|k: int| 0 <= k < i ==> self.entries@[k].0 != *key,
            decreases self.entries@.len() - i,
        {
            if self.entries[i].0 == *key {
                return Some(i);
            }
            i += 1;
        }
        None
    }

    /// The number of entries.
    pub fn len(&self) -> (r: usize)
        ensures
            self@.dom().finite(),
            r == self@.dom().len(),
    {
        proof {
            use_type_invariant(self);
            lemma_entries_len(self.entries@);
        }
        self.entries.len()
    }

    /// Whether `key` has an entry.
    pub fn contains_key(&self, key: &crate::sha256::Hash) -> (r: bool)
        ensures
            r == self@.contains_key(*key),
    {
        proof {
            use_type_invariant(self);
        }
        match self.position(key) {
            Some(i) => {
                proof {
                    lemma_entry(self.entries@, i as int);
                }
                true
            },
            None => false,
        }
    }

    /// The output that stands under `key`.
    pub fn get(&self, key: &crate::sha256::Hash) -> (r: Option<&TxOut>)
        ensures
            match r {
                Some(o) => self@.contains_key(*key) && self@[*key] == o@,
                None => !self@.contains_key(*key),
            },
    {
        proof {
            use_type_invariant(self);
        }
        match self.position(key) {
            Some(i) => {
                proof {
                    lemma_entry(self.entries@, i as int);
                }
                Some(&self.entries[i].1)
            },
            None => None,
        }
    }

    /// Puts `value` under `key`, in place of what stood there.
    pub fn insert(&mut self, key: crate::sha256::Hash, value: TxOut)
        ensures
            final(self)@ == old(self)@.insert(key, value@),
    {
        proof {
            use_type_invariant(&*self);
        }
        let ghost before = self.entries@;
        let ghost val = value@;
        let found = self.position(&key);
        let mut entries: Vec<(crate::sha256::Hash, TxOut)> = Vec::new();
        core::mem::swap(&mut self.entries, &mut entries);
        match found {
            Some(i) => {
                entries[i] = (key, value);
                proof {
                    let after = entries@;
                    assert(entry_keys(after) =~= entry_keys(before));
                    assert forall|h: crate::sha256::Hash|
                        entries_map(before).dom().contains(h) implies #[trigger] entries_map(
                        after,
                    )[h] == entries_map(before).insert(key, val)[h] by {
                        let j = entry_keys(before).index_of(h);
                        lemma_entry(after, j);
                        lemma_entry(before, j);
                        assert(entry_keys(before)[i as int] == key);
                    }
                    assert(entries_map(before).dom().contains(key)) by {
                        lemma_entry(before, i as int);
                    }
                    assert(entries_map(after) =~= entries_map(before).insert(key, val));
                }
            },
            None => {
                entries.push((key, value));
                proof {
                    let after = entries@;
                    let n = before.len() as int;
                    assert(entry_keys(after) =~= entry_keys(before).push(key));
                    assert(entry_keys(after).no_duplicates());
                    assert forall|h: crate::sha256::Hash| #[trigger]
                        entries_map(after).dom().contains(h) == (entries_map(before).dom().contains(
                            h,
                        ) || h == key) by {
                        if entry_keys(after).contains(h) {
                            let j = entry_keys(after).index_of(h);
                            if j < n {
                                assert(entry_keys(before)[j] == h);
                            }
                        }
                        if entry_keys(before).contains(h) {
                            let j = entry_keys(before).index_of(h);
                            assert(entry_keys(after)[j] == h);
                        }
                        if h == key {
                            assert(entry_keys(after)[n] == h);
                        }
                    }
                    assert forall|h: crate::sha256::Hash|
                        entries_map(after).dom().contains(h) implies #[trigger] entries_map(
                        after,
                    )[h] == entries_map(before).insert(key, val)[h] by {
                        if h == key {
                            lemma_entry(after, n);
                        } else {
                            let j = entry_keys(before).index_of(h);
                            lemma_entry(after, j);
                            lemma_entry(before, j);
                        }
                    }
                    assert(entries_map(after) =~= entries_map(before).insert(key, val));
                }
            },
        }
        self.entries = entries;
    }

    /// Takes away the entry under `key`, if there is one.
    pub fn remove(&mut self, key: &crate::sha256::Hash)
        ensures
            final(self)@ == old(self)@.remove(*key),
    {
        proof {
            use_type_invariant(&*self);
        }
        let ghost before = self.entries@;
        let found = self.position(key);
        let mut entries: Vec<(crate::sha256::Hash, TxOut)> = Vec::new();
        core::mem::swap(&mut self.entries, &mut entries);
        match found {
            Some(i) => {
                entries.remove(i);
                proof {
                    let after = entries@;
                    assert(entry_keys(after) =~= entry_keys(before).remove(i as int));
                    assert(entry_keys(before)[i as int] == *key);
                    assert forall|a: int, b: int|
                        0 <= a < after.len() && 0 <= b < after.len() && a != b implies entry_keys(
                        after,
                    )[a] != entry_keys(after)[b] by {
                        let a0 = if a < i { a } else { a + 1 };
                        let b0 = if b < i { b } else { b + 1 };
                        assert(entry_keys(after)[a] == entry_keys(before)[a0]);
                        assert(entry_keys(after)[b] == entry_keys(before)[b0]);
                    }
                    assert forall|h: crate::sha256::Hash| #[trigger]
                        entries_map(after).dom().contains(h) == (entries_map(before).dom().contains(
                            h,
                        ) && h != *key) by {
                        if entry_keys(after).contains(h) {
                            let j = entry_keys(after).index_of(h);
                            let j0 = if j < i { j } else { j + 1 };
                            assert(entry_keys(before)[j0] == h);
                        }
                        if entry_keys(before).contains(h) && h != *key {
                            let j = entry_keys(before).index_of(h);
                            let j1 = if j < i { j } else { j - 1 };
                            assert(entry_keys(after)[j1] == h);
                        }
                    }
                    assert forall|h: crate::sha256::Hash|
                        entries_map(after).dom().contains(h) implies #[trigger] entries_map(
                        after,
                    )[h] == entries_map(before).remove(*key)[h] by {
                        let j = entry_keys(before).index_of(h);
                        let j1 = if j < i { j } else { j - 1 };
                        lemma_entry(after, j1);
                        lemma_entry(before, j);
                    }
                    assert(entries_map(after) =~= entries_map(before).remove(*key));
                }
            },
            None => {
                assert(entries_map(before) =~= entries_map(before).remove(*key));
            },
        }
        self.entries = entries;
    }

    /// Takes away every entry.
    pub fn clear(&mut self)
        ensures
            final(self)@ == Map::<crate::sha256::Hash, TxOutView>::empty(),
    {
        self.entries = Vec::new();
        assert(entries_map(self.entries@) =~= Map::<crate::sha256::Hash, TxOutView>::empty());
    }

    /// The entries, in no particular order.
    pub fn entries(&self) -> (r: Vec<(crate::sha256::Hash, TxOut)>)
        ensures
            r@.len() == self@.dom().len(),
            forall|i: int|
                0 <= i < r@.len() ==> self@.contains_key((#[trigger] r@[i]).0) && self@[r@[i].0]
                    == r@[i].1@,
            forall|h: crate::sha256::Hash|
                self@.contains_key(h) ==> exists|i: int| 0 <= i < r@.len() && (#[trigger] r@[i]).0 == h,
    {
        proof {
            use_type_invariant(self);
            lemma_entries_len(self.entries@);
        }
        let mut out: Vec<(crate::sha256::Hash, TxOut)> = Vec::new();
        let mut i: usize = 0;
        while i < self.entries.len()
            invariant
                i <= self.entries@.len(),
                out@.len() == i,
                forall|k: int|
                    0 <= k < i ==> (#[trigger] out@[k]).0 == self.entries@[k].0 && out@[k].1@
                        == self.entries@[k].1@,
            decreases self.entries@.len() - i,
        {
            out.push((self.entries[i].0, self.entries[i].1.clone()));
            i += 1;
        }
        proof {
            assert forall|k: int| 0 <= k < out@.len() implies self@.contains_key(
                (#[trigger] out@[k]).0,
            ) && self@[out@[k].0] == out@[k].1@ by {
                lemma_entry(self.entries@, k);
            }
            assert forall|h: crate::sha256::Hash| self@.contains_key(h) implies exists|i: int|
                0 <= i < out@.len() && (#[trigger] out@[i]).0 == h by {
                let j = entry_keys(self.entries@).index_of(h);
                assert(out@[j].0 == h);
            }
        }
        out
    }
}

} // verus!
