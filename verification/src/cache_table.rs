//! The table of cached files, keyed by canonical path.
//!
//! Paths are kept in the order in which they were first inserted; no path
//! occurs twice.

use vstd::prelude::*;
use crate::cache_entry::{EntryModel, FileCacheEntry};

verus! {

/// One row of the table.
#[derive(Debug)]
pub struct Slot {
    pub path: String,
    pub entry: FileCacheEntry,
}

/// Maps canonical paths to entries.
#[derive(Debug)]
pub struct CacheTable {
    slots: Vec<Slot>,
}

/// No path stands in two rows.
pub open spec fn distinct_paths(slots: Seq<Slot>) -> bool {
    forall|i: int, j: int|
        0 <= i < slots.len() && 0 <= j < slots.len() && i != j ==> (#[trigger] slots[i]).path@ != (
        #[trigger] slots[j]).path@
}

/// Some row holds `path`.
pub open spec fn has_path(slots: Seq<Slot>, path: Seq<char>) -> bool {
    exists|i: int| 0 <= i < slots.len() && (#[trigger] slots[i]).path@ == path
}

/// A row that holds `path`, if there is one.
pub open spec fn row_of(slots: Seq<Slot>, path: Seq<char>) -> int {
    choose|i: int| 0 <= i < slots.len() && (#[trigger] slots[i]).path@ == path
}

/// The rows as a map from path to entry.
pub open spec fn rows_as_map(slots: Seq<Slot>) -> Map<Seq<char>, EntryModel> {
    Map::new(|p: Seq<char>| has_path(slots, p), |p: Seq<char>| slots[row_of(slots, p)].entry@)
}

/// In a table without repeated paths, the row at `i` is the row of its path.
pub proof fn lemma_row_found(slots: Seq<Slot>, i: int)
    requires
        distinct_paths(slots),
        0 <= i < slots.len(),
    ensures
        has_path(slots, slots[i].path@),
        row_of(slots, slots[i].path@) == i,
        rows_as_map(slots).contains_key(slots[i].path@),
        rows_as_map(slots)[slots[i].path@] == slots[i].entry@,
{
    let p = slots[i].path@;
    assert(has_path(slots, p));
    let k = row_of(slots, p);
    assert(0 <= k < slots.len() && slots[k].path@ == p);
}

/// Appending a row under a path that is not in the table inserts it.
pub proof fn lemma_push_inserts(slots: Seq<Slot>, slot: Slot)
    requires
        distinct_paths(slots),
        !has_path(slots, slot.path@),
    ensures
        distinct_paths(slots.push(slot)),
        rows_as_map(slots.push(slot)) == rows_as_map(slots).insert(slot.path@, slot.entry@),
{
    let next = slots.push(slot);
    assert(distinct_paths(next)) by {
        assert forall|i: int, j: int|
            0 <= i < next.len() && 0 <= j < next.len() && i != j implies (#[trigger] next[i]).path@
            != (#[trigger] next[j]).path@ by {
            if i < slots.len() && j < slots.len() {
                assert(slots[i].path@ != slots[j].path@);
            } else if i < slots.len() {
                assert(slots[i].path@ != slot.path@);
            } else {
                assert(slots[j].path@ != slot.path@);
            }
        }
    }
    let a = rows_as_map(next);
    let b = rows_as_map(slots).insert(slot.path@, slot.entry@);
    assert forall|p: Seq<char>| a.contains_key(p) <==> b.contains_key(p) by {
        if has_path(next, p) {
            let k = row_of(next, p);
            if k < slots.len() {
                assert(slots[k].path@ == p);
            }
        }
        if has_path(slots, p) {
            let k = row_of(slots, p);
            assert(next[k].path@ == p);
        }
        if p == slot.path@ {
            assert(next[slots.len() as int].path@ == p);
        }
    }
    assert forall|p: Seq<char>| a.contains_key(p) implies a[p] == b[p] by {
        let k = row_of(next, p);
        lemma_row_found(next, k);
        if k < slots.len() {
            lemma_row_found(slots, k);
        }
    }
    assert(a =~= b);
}

/// Replacing the entry of a row replaces the entry of its path.
pub proof fn lemma_update_inserts(slots: Seq<Slot>, i: int, slot: Slot)
    requires
        distinct_paths(slots),
        0 <= i < slots.len(),
        slot.path@ == slots[i].path@,
    ensures
        distinct_paths(slots.update(i, slot)),
        rows_as_map(slots.update(i, slot)) == rows_as_map(slots).insert(slot.path@, slot.entry@),
{
    let next = slots.update(i, slot);
    assert(distinct_paths(next)) by {
        assert forall|a: int, b: int|
            0 <= a < next.len() && 0 <= b < next.len() && a != b implies (#[trigger] next[a]).path@
            != (#[trigger] next[b]).path@ by {
            assert(next[a].path@ == slots[a].path@);
            assert(next[b].path@ == slots[b].path@);
        }
    }
    let a = rows_as_map(next);
    let b = rows_as_map(slots).insert(slot.path@, slot.entry@);
    assert forall|p: Seq<char>| a.contains_key(p) <==> b.contains_key(p) by {
        if has_path(next, p) {
            let k = row_of(next, p);
            assert(slots[k].path@ == p);
        }
        if has_path(slots, p) {
            let k = row_of(slots, p);
            assert(next[k].path@ == p);
        }
        if p == slot.path@ {
            assert(next[i].path@ == p);
        }
    }
    assert forall|p: Seq<char>| a.contains_key(p) implies a[p] == b[p] by {
        let k = row_of(next, p);
        lemma_row_found(next, k);
        if k != i {
            assert(slots[k].path@ == p);
            lemma_row_found(slots, k);
        }
    }
    assert(a =~= b);
}

impl View for CacheTable {
    type V = Map<Seq<char>, EntryModel>;

    closed spec fn view(&self) -> Map<Seq<char>, EntryModel> {
        rows_as_map(self.slots@)
    }
}

impl CacheTable {
    /// No path is cached twice.
    pub closed spec fn wf(&self) -> bool {
        distinct_paths(self.slots@)
    }

    /// The paths in the order of their first insertion.
    pub closed spec fn paths(&self) -> Seq<Seq<char>> {
        Seq::new(self.slots@.len(), |i: int| self.slots@[i].path@)
    }

    /// An empty table.
    pub fn new() -> (t: CacheTable)
        ensures
            t.wf(),
            t@ == Map::<Seq<char>, EntryModel>::empty(),
            t.paths() == Seq::<Seq<char>>::empty(),
    {
        let t = CacheTable { slots: Vec::new() };
        assert(t@ =~= Map::<Seq<char>, EntryModel>::empty());
        assert(t.paths() =~= Seq::<Seq<char>>::empty());
        t
    }

    /// The row that holds `path`, if any.
    fn find(&self, path: &String) -> (r: Option<usize>)
        ensures
            match r {
                Some(i) => i < self.slots@.len() && self.slots@[i as int].path@ == path@,
                None => !has_path(self.slots@, path@),
            },
    {
        let mut i: usize = 0;
        while i < self.slots.len()
            invariant
                i <= self.slots@.len(),
                forall|k: int| 0 <= k < i ==> (#[trigger] self.slots@[k]).path@ != path@,
            decreases self.slots@.len() - i,
        {
            if self.slots[i].path == *path {
                return Some(i);
            }
            i += 1;
        }
        None
    }

    /// Number of cached paths.
    pub fn len(&self) -> (n: usize)
        requires
            self.wf(),
        ensures
            n == self.paths().len(),
            n == self@.dom().len(),
            self@.dom().finite(),
    {
        proof {
            self.lemma_dom_is_paths();
        }
        self.slots.len()
    }

    /// Whether `path` is cached.
    pub fn contains_key(&self, path: &String) -> (b: bool)
        ensures
            b == self@.contains_key(path@),
    {
        self.find(path).is_some()
    }

    /// The entry cached under `path`.
    pub fn get(&self, path: &String) -> (r: Option<&FileCacheEntry>)
        requires
            self.wf(),
        ensures
            match r {
                Some(e) => self@.contains_key(path@) && e@ == self@[path@],
                None => !self@.contains_key(path@),
            },
    {
        match self.find(path) {
            Some(i) => {
                proof {
                            lemma_row_found(self.slots@, i as int);
                }
                Some(&self.slots[i].entry)
            },
            None => None,
        }
    }

    /// Stores `entry` under `path`, replacing what was there.
    pub fn insert(&mut self, path: String, entry: FileCacheEntry)
        requires
            old(self).wf(),
        ensures
            final(self).wf(),
            final(self)@ == old(self)@.insert(path@, entry@),
            final(self).paths() == if old(self)@.contains_key(path@) {
                old(self).paths()
            } else {
                old(self).paths().push(path@)
            },
    {
        let found = self.find(&path);
        let slot = Slot { path, entry };
        match found {
            Some(i) => {
                proof {
                    lemma_update_inserts(self.slots@, i as int, slot);
                    lemma_row_found(self.slots@, i as int);
                }
                let ghost before = self.paths();
                self.slots.set(i, slot);
                assert(self.paths() =~= before);
            },
            None => {
                proof {
                    lemma_push_inserts(self.slots@, slot);
                }
                let ghost before = self.paths();
                self.slots.push(slot);
                assert(self.paths() =~= before.push(slot.path@));
            },
        }
    }

    /// The path in row `i`, with the modification time recorded for it.
    pub fn stamp_at(&self, i: usize) -> (r: (String, Option<u64>))
        requires
            self.wf(),
            i < self.paths().len(),
        ensures
            r.0@ == self.paths()[i as int],
            self@.contains_key(r.0@),
            r.1 == self@[r.0@].modification_time,
    {
        proof {
            lemma_row_found(self.slots@, i as int);
        }
        let slot = &self.slots[i];
        (slot.path.clone(), *slot.entry.modification_time())
    }

    /// The cached paths are exactly the listed ones, each listed once.
    pub proof fn lemma_dom_is_paths(&self)
        requires
            self.wf(),
        ensures
            self.paths().no_duplicates(),
            self@.dom() == self.paths().to_set(),
            self@.dom().finite(),
            self@.dom().len() == self.paths().len(),
    {
        let ps = self.paths();
        assert(ps.no_duplicates()) by {
            assert forall|i: int, j: int| 0 <= i < ps.len() && 0 <= j < ps.len() && i != j implies ps[i]
                != ps[j] by {
                assert(self.slots@[i].path@ != self.slots@[j].path@);
            }
        }
        assert(self@.dom() =~= ps.to_set()) by {
            assert forall|p: Seq<char>| self@.dom().contains(p) <==> ps.to_set().contains(p) by {
                if has_path(self.slots@, p) {
                    let k = row_of(self.slots@, p);
                    assert(ps[k] == p);
                }
                if ps.contains(p) {
                    let k = choose|k: int| 0 <= k < ps.len() && ps[k] == p;
                    assert(self.slots@[k].path@ == p);
                }
            }
        }
        ps.unique_seq_to_set();
        vstd::seq_lib::seq_to_set_is_finite::<Seq<char>>(ps);
    }
}

} // verus!
