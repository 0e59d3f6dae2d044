use crate::record::{RecordView, SysManAccount};
use vstd::prelude::*;

verus! {

/// No key occurs twice in the backing sequence of entries.
pub open spec fn unique_keys(s: Seq<(u64, SysManAccount)>) -> bool {
    forall|i: int, j: int| 0 <= i < j < s.len() ==> (#[trigger] s[i]).0 != (#[trigger] s[j]).0
}

/// The map denoted by a sequence of key/record entries; a later entry for a
/// key overrides an earlier one, matching overwrite-on-insert semantics.
pub open spec fn entries_map(s: Seq<(u64, SysManAccount)>) -> Map<u64, RecordView>
    decreases s.len(),
{
    if s.len() == 0 {
        Map::empty()
    } else {
        entries_map(s.drop_last()).insert(s.last().0, s.last().1@)
    }
}

proof fn lemma_entries_map_dom(s: Seq<(u64, SysManAccount)>)
    ensures
        forall|k: u64| #[trigger] entries_map(s).dom().contains(k)
            <==> exists|i: int| 0 <= i < s.len() && (#[trigger] s[i]).0 == k,
    decreases s.len(),
{
    if s.len() > 0 {
        lemma_entries_map_dom(s.drop_last());
        assert forall|k: u64| #[trigger] entries_map(s).dom().contains(k)
            implies exists|i: int| 0 <= i < s.len() && (#[trigger] s[i]).0 == k by {
            if k == s.last().0 {
                assert(s[s.len() - 1].0 == k);
            } else {
                assert(entries_map(s.drop_last()).dom().contains(k));
                let i = choose|i: int| 0 <= i < s.drop_last().len()
                    && (#[trigger] s.drop_last()[i]).0 == k;
                assert(s.drop_last()[i] == s[i]);
                assert(s[i].0 == k);
            }
        }
        assert forall|k: u64| (exists|i: int| 0 <= i < s.len() && (#[trigger] s[i]).0 == k)
            implies #[trigger] entries_map(s).dom().contains(k) by {
            let i = choose|i: int| 0 <= i < s.len() && (#[trigger] s[i]).0 == k;
            if i < s.len() - 1 {
                assert(s.drop_last()[i] == s[i]);
                assert(s.drop_last()[i].0 == k);
                assert(entries_map(s.drop_last()).dom().contains(k));
            }
        }
    }
}

proof fn lemma_entries_map_index(s: Seq<(u64, SysManAccount)>, i: int)
    requires
        unique_keys(s),
        0 <= i < s.len(),
    ensures
        entries_map(s).dom().contains(s[i].0),
        entries_map(s)[s[i].0] == s[i].1@,
    decreases s.len(),
{
    if i == s.len() - 1 {
    } else {
        assert(s.drop_last()[i] == s[i]);
        lemma_entries_map_index(s.drop_last(), i);
        assert(s[i].0 != s.last().0);
    }
}

proof fn lemma_entries_map_remove(s: Seq<(u64, SysManAccount)>, i: int)
    requires
        unique_keys(s),
        0 <= i < s.len(),
    ensures
        entries_map(s.remove(i)) == entries_map(s).remove(s[i].0),
    decreases s.len(),
{
    let k = s[i].0;
    if i == s.len() - 1 {
        assert(s.remove(i) =~= s.drop_last());
        lemma_entries_map_dom(s.drop_last());
        assert(!entries_map(s.drop_last()).dom().contains(k));
        assert(entries_map(s.drop_last()).insert(k, s.last().1@).remove(k)
            =~= entries_map(s.drop_last()));
    } else {
        let t = s.remove(i);
        assert(t.drop_last() =~= s.drop_last().remove(i));
        assert(t.last() == s.last());
        lemma_entries_map_remove(s.drop_last(), i);
        assert(s.drop_last()[i] == s[i]);
        assert(k != s.last().0);
        assert(entries_map(s.drop_last()).remove(k).insert(s.last().0, s.last().1@)
            =~= entries_map(s.drop_last()).insert(s.last().0, s.last().1@).remove(k));
    }
}

/// One logical registry: a key-value store from identity to record, with
/// atomic point lookups, inserts and removals.
pub struct StoreMap {
    entries: Vec<(u64, SysManAccount)>,
}

impl View for StoreMap {
    type V = Map<u64, RecordView>;

    closed spec fn view(&self) -> Map<u64, RecordView> {
        entries_map(self.entries@)
    }
}

impl StoreMap {
    /// The backing entries hold each key at most once.
    pub closed spec fn wf(&self) -> bool {
        unique_keys(self.entries@)
    }

    /// An empty registry.
    pub fn new() -> (r: StoreMap)
        ensures
            r.wf(),
            r@ == Map::<u64, RecordView>::empty(),
    {
        StoreMap { entries: Vec::new() }
    }

    /// Whether `key` currently has a record in this registry.
    pub fn contains_key(&self, key: u64) -> (r: bool)
        requires
            self.wf(),
        ensures
            r == self@.dom().contains(key),
    {
        proof {
            lemma_entries_map_dom(self.entries@);
        }
        let n = self.entries.len();
        let mut i: usize = 0;
        while i < n
            invariant
                self.wf(),
                n == self.entries@.len(),
                i <= n,
                forall|j: int| 0 <= j < i ==> (#[trigger] self.entries@[j]).0 != key,
            decreases n - i,
        {
            if self.entries[i].0 == key {
                proof {
                    lemma_entries_map_index(self.entries@, i as int);
                }
                return true;
            }
            i += 1;
        }
        false
    }

    /// The record stored under `key`, if any.
    pub fn get(&self, key: u64) -> (r: Option<&SysManAccount>)
        requires
            self.wf(),
        ensures
            match r {
                Some(rec) => self@.dom().contains(key) && rec@ == self@[key],
                None => !self@.dom().contains(key),
            },
    {
        proof {
            lemma_entries_map_dom(self.entries@);
        }
        let n = self.entries.len();
        let mut i: usize = 0;
        while i < n
            invariant
                self.wf(),
                n == self.entries@.len(),
                i <= n,
                forall|j: int| 0 <= j < i ==> (#[trigger] self.entries@[j]).0 != key,
            decreases n - i,
        {
            if self.entries[i].0 == key {
                proof {
                    lemma_entries_map_index(self.entries@, i as int);
                }
                return Some(&self.entries[i].1);
            }
            i += 1;
        }
        None
    }

    /// Removes the record under `key`, if any.
    pub fn remove(&mut self, key: u64)
        requires
            old(self).wf(),
        ensures
            final(self).wf(),
            final(self)@ == old(self)@.remove(key),
    {
        proof {
            lemma_entries_map_dom(self.entries@);
        }
        let n = self.entries.len();
        let mut i: usize = 0;
        while i < n
            invariant
                self.wf(),
                self.entries@ == old(self).entries@,
                n == self.entries@.len(),
                i <= n,
                forall|j: int| 0 <= j < i ==> (#[trigger] self.entries@[j]).0 != key,
            decreases n - i,
        {
            if self.entries[i].0 == key {
                proof {
                    lemma_entries_map_remove(self.entries@, i as int);
                }
                self.entries.remove(i);
                proof {
                    assert forall|a: int, b: int|
                        0 <= a < b < self.entries@.len()
                        implies (#[trigger] self.entries@[a]).0
                            != (#[trigger] self.entries@[b]).0 by {
                        let s = old(self).entries@;
                        let a0 = if a < i { a } else { a + 1 };
                        let b0 = if b < i { b } else { b + 1 };
                        assert(self.entries@[a] == s[a0]);
                        assert(self.entries@[b] == s[b0]);
                    }
                }
                return;
            }
            i += 1;
        }
        proof {
            assert(!self@.dom().contains(key));
            assert(self@.remove(key) =~= self@);
        }
    }

    /// Stores `value` under `key`, overwriting any record already there.
    pub fn insert(&mut self, key: u64, value: SysManAccount)
        requires
            old(self).wf(),
        ensures
            final(self).wf(),
            final(self)@ == old(self)@.insert(key, value@),
    {
        self.remove(key);
        proof {
            lemma_entries_map_dom(self.entries@);
        }
        let ghost before = self.entries@;
        self.entries.push((key, value));
        proof {
            assert(self.entries@.drop_last() =~= before);
            assert forall|a: int, b: int|
                0 <= a < b < self.entries@.len()
                implies (#[trigger] self.entries@[a]).0
                    != (#[trigger] self.entries@[b]).0 by {
                if b == self.entries@.len() - 1 {
                    assert(self.entries@[a] == before[a]);
                    assert(!entries_map(before).dom().contains(key));
                }
            }
            assert(self@ =~= old(self)@.remove(key).insert(key, value@));
            assert(old(self)@.remove(key).insert(key, value@)
                =~= old(self)@.insert(key, value@));
        }
    }
}

} // verus!
