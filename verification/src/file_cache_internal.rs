//! The state behind a cache handle: table, loading queue and counters, with
//! the rules by which requests, reloads and detector findings change them.

use std::collections::VecDeque;
use vstd::prelude::*;
use vstd::utf8::{decode_utf8, valid_utf8};
use crate::cache_entry::{empty_entry, EntryModel, FileCacheEntry};
use crate::cache_model::{outdated, CacheModel, FileCacheError, ProbeModel};
use crate::cache_table::CacheTable;
use crate::canonical_path::parent_directory;
use crate::text::{utf8_lossy, versioned_text};
use crate::watch_change::{WatchChange, WatchChangeTx};

verus! {

/// What the file system answered about one requested file.
#[derive(Debug)]
pub struct FileProbe {
    /// The canonical path, unless the name could not be resolved.
    pub canonical: Option<String>,
    /// The bytes of the file, unless it was not read or could not be read.
    pub content: Option<Vec<u8>>,
}

impl View for FileProbe {
    type V = ProbeModel;

    open spec fn view(&self) -> ProbeModel {
        ProbeModel {
            canonical: match self.canonical {
                Some(path) => Some(path@),
                None => None,
            },
            content: match self.content {
                Some(bytes) => Some(bytes@),
                None => None,
            },
        }
    }
}

/// How the loader's work on one queued path ended.
#[derive(Debug, Clone, Copy, PartialEq, Eq, Structural)]
pub enum ReloadOutcome {
    /// The file could not be read; the cache keeps what it had.
    Dropped,
    /// The new content is stored under this version.
    Updated(u32),
    /// The modification time is the stored one: nothing was observed to
    /// change, which the caller treats as fatal. The cache keeps what it had.
    Unmodified,
}

/// The views of queued paths, front first.
pub open spec fn queued_paths(queue: Seq<String>) -> Seq<Seq<char>> {
    Seq::new(queue.len(), |i: int| queue[i]@)
}

/// Table, loading queue, counters and settings of one cache.
#[derive(Debug)]
pub struct FileCacheInternal {
    base_path: String,
    cache_misses: u32,
    cache_hits: u32,
    entry_updates: u32,
    cache: CacheTable,
    loading_queue: VecDeque<String>,
    block_on_initial_load: bool,
    watch_change_tx: Option<WatchChangeTx>,
}

impl View for FileCacheInternal {
    type V = CacheModel;

    closed spec fn view(&self) -> CacheModel {
        CacheModel {
            base_path: self.base_path@,
            cache_misses: self.cache_misses as nat,
            cache_hits: self.cache_hits as nat,
            entry_updates: self.entry_updates as nat,
            cache: self.cache@,
            loading_queue: queued_paths(self.loading_queue@),
            block_on_initial_load: self.block_on_initial_load,
            watch_changes: match self.watch_change_tx {
                Some(tx) => Some(tx@),
                None => None,
            },
        }
    }
}

impl FileCacheInternal {
    /// No path is cached twice, and every stored version is below the
    /// number of updates.
    pub closed spec fn wf(&self) -> bool {
        &&& self.cache.wf()
        &&& self@.versions_counted()
    }

    /// The cached paths in the order of their first request.
    pub closed spec fn cached_paths(&self) -> Seq<Seq<char>> {
        self.cache.paths()
    }

    pub fn new() -> (c: FileCacheInternal)
        ensures
            c.wf(),
            c@ == CacheModel::initial(),
            c.cached_paths() == Seq::<Seq<char>>::empty(),
    {
        let c = FileCacheInternal {
            base_path: ".".to_owned(),
            cache_misses: 0,
            cache_hits: 0,
            entry_updates: 0,
            cache: CacheTable::new(),
            loading_queue: VecDeque::new(),
            block_on_initial_load: false,
            watch_change_tx: None,
        };
        proof {
            reveal_strlit(".");
            assert(c@.base_path =~= seq!['.']);
            assert(c@.loading_queue =~= Seq::<Seq<char>>::empty());
        }
        c
    }

    /// Maintenance hook; changes nothing.
    pub fn update(&mut self)
        ensures
            *final(self) == *old(self),
    {
    }

    pub fn enable_block_on_initial_load(&mut self)
        requires
            old(self).wf(),
        ensures
            final(self).wf(),
            final(self)@ == (CacheModel { block_on_initial_load: true, ..old(self)@ }),
            final(self).cached_paths() == old(self).cached_paths(),
    {
        self.block_on_initial_load = true;
    }

    pub fn disable_block_on_initial_load(&mut self)
        requires
            old(self).wf(),
        ensures
            final(self).wf(),
            final(self)@ == (CacheModel { block_on_initial_load: false, ..old(self)@ }),
            final(self).cached_paths() == old(self).cached_paths(),
    {
        self.block_on_initial_load = false;
    }

    /// Connects or disconnects the watch detector.
    pub fn set_watch_change_tx(&mut self, watch_change_tx: Option<WatchChangeTx>)
        requires
            old(self).wf(),
        ensures
            final(self).wf(),
            final(self)@ == (CacheModel {
                watch_changes: match watch_change_tx {
                    Some(tx) => Some(tx@),
                    None => None,
                },
                ..old(self)@
            }),
            final(self).cached_paths() == old(self).cached_paths(),
    {
        self.watch_change_tx = watch_change_tx;
    }

    /// Sets the directory against which relative names are resolved; the
    /// caller passes it in canonical form.
    pub fn set_base_path(&mut self, base_path: String)
        requires
            old(self).wf(),
        ensures
            final(self).wf(),
            final(self)@ == (CacheModel { base_path: base_path@, ..old(self)@ }),
            final(self).cached_paths() == old(self).cached_paths(),
    {
        self.base_path = base_path;
    }

    pub fn base_path(&self) -> (p: &String)
        ensures
            p@ == self@.base_path,
    {
        &self.base_path
    }

    pub fn cache(&self) -> (t: &CacheTable)
        ensures
            t@ == self@.cache,
            t.paths() == self.cached_paths(),
            self.wf() ==> t.wf(),
    {
        &self.cache
    }

    pub fn cache_misses(&self) -> (n: u32)
        ensures
            n == self@.cache_misses,
    {
        self.cache_misses
    }

    pub fn cache_hits(&self) -> (n: u32)
        ensures
            n == self@.cache_hits,
    {
        self.cache_hits
    }

    pub fn entry_updates(&self) -> (n: u32)
        ensures
            n == self@.entry_updates,
    {
        self.entry_updates
    }

    pub fn loading_queue_pop_front(&mut self) -> (front: Option<String>)
        requires
            old(self).wf(),
        ensures
            final(self).wf(),
            final(self).cached_paths() == old(self).cached_paths(),
            match front {
                Some(path) => old(self)@.loading_queue.len() > 0 && path@ == old(
                    self,
                )@.loading_queue[0] && final(self)@ == (CacheModel {
                    loading_queue: old(self)@.loading_queue.drop_first(),
                    ..old(self)@
                }),
                None => old(self)@.loading_queue.len() == 0 && final(self)@ == old(self)@,
            },
    {
        let front = self.loading_queue.pop_front();
        proof {
            if front.is_some() {
                assert(self@.loading_queue =~= old(self)@.loading_queue.drop_first());
            } else {
                assert(self@.loading_queue =~= old(self)@.loading_queue);
            }
        }
        front
    }

    pub fn loading_queue_push_back(&mut self, entry: String)
        requires
            old(self).wf(),
        ensures
            final(self).wf(),
            final(self).cached_paths() == old(self).cached_paths(),
            final(self)@ == old(self)@.after_enqueue(entry@),
    {
        self.loading_queue.push_back(entry);
        assert(self@.loading_queue =~= old(self)@.loading_queue.push(entry@));
    }
}

impl FileCacheInternal {
    /// Whether storing `entry` under `path` would repeat the stored
    /// modification time.
    pub fn is_redundant_update(&self, path: &String, entry: &FileCacheEntry) -> (b: bool)
        requires
            self.wf(),
        ensures
            b == self@.is_redundant(path@, entry@),
    {
        match self.cache.get(path) {
            Some(old_entry) => {
                let stored: &Option<u64> = old_entry.modification_time();
                let offered: &Option<u64> = entry.modification_time();
                match (stored, offered) {
                    (Some(a), Some(b)) => *a == *b,
                    (None, None) => true,
                    _ => false,
                }
            },
            None => false,
        }
    }

    /// Stores `entry` under `path` with the next version of that path, and
    /// counts the update. The entry's own version is ignored.
    pub fn update_entry(&mut self, full_path: &String, entry: FileCacheEntry) -> (r: Result<
        (),
        FileCacheError,
    >)
        requires
            old(self).wf(),
            old(self)@.entry_updates < u32::MAX,
            !old(self)@.is_redundant(full_path@, entry@),
        ensures
            r is Ok,
            final(self).wf(),
            final(self)@ == old(self)@.after_update_entry(full_path@, entry@),
            final(self).cached_paths() == if old(self)@.cache.contains_key(full_path@) {
                old(self).cached_paths()
            } else {
                old(self).cached_paths().push(full_path@)
            },
    {
        let mut entry = entry;
        let version: u32 = match self.cache.get(full_path) {
            Some(old_entry) => {
                assert(self@.cache.contains_key(full_path@));
                old_entry.version() + 1
            },
            None => 0,
        };
        self.entry_updates = self.entry_updates + 1;
        entry.set_version(version);
        self.cache.insert(full_path.clone(), entry);
        proof {
            let before = old(self)@;
            let after = before.after_update_entry(full_path@, entry@);
            assert(self@.cache =~= after.cache);
            assert(self@.loading_queue =~= after.loading_queue);
            assert(self@ == after);
            assert forall|p: Seq<char>| #[trigger] self@.cache.contains_key(p) implies self@.cache[p].version
                < self@.entry_updates by {
                if p != full_path@ {
                    assert(before.cache.contains_key(p));
                }
            }
        }
        Ok(())
    }

    /// Wraps what was read from a file into an entry, or reports that the
    /// file could not be read.
    pub fn load_entry(read: Option<Vec<u8>>) -> (r: Result<FileCacheEntry, FileCacheError>)
        ensures
            match read {
                Some(bytes) => r matches Ok(e) && e@ == (EntryModel {
                    content: bytes@,
                    ..empty_entry()
                }),
                None => r == Err::<FileCacheEntry, FileCacheError>(FileCacheError::Unreadable),
            },
    {
        match read {
            Some(bytes) => Ok(FileCacheEntry::with_content(bytes)),
            None => Err(FileCacheError::Unreadable),
        }
    }

    /// Whether a request for `canonical` will need the file's bytes: the
    /// path is not cached and the first load blocks.
    pub fn needs_initial_read(&self, canonical: &String) -> (b: bool)
        ensures
            b == (self@.block_on_initial_load && !self@.cache.contains_key(canonical@)),
    {
        self.block_on_initial_load && !self.cache.contains_key(canonical)
    }

    /// Asks the watch detector, if one is connected, to watch the directory
    /// `path`.
    pub fn request_watch(&mut self, path: String)
        requires
            old(self).wf(),
        ensures
            final(self).wf(),
            final(self)@ == old(self)@.after_watch_request(path@),
            final(self).cached_paths() == old(self).cached_paths(),
    {
        let mut tx = None;
        std::mem::swap(&mut tx, &mut self.watch_change_tx);
        match tx {
            Some(mut sender) => {
                sender.send(WatchChange::Add(path));
                self.watch_change_tx = Some(sender);
            },
            None => {},
        }
    }

    /// Hands out the watch requests made since the last call, oldest first.
    /// Without a connected detector there are none.
    pub fn take_watch_changes(&mut self) -> (changes: Vec<WatchChange>)
        requires
            old(self).wf(),
        ensures
            final(self).wf(),
            final(self).cached_paths() == old(self).cached_paths(),
            match old(self)@.watch_changes {
                Some(sent) => crate::watch_change::requested_paths(changes@) == sent && final(self)@
                    == (CacheModel {
                    watch_changes: Some(Seq::<Seq<char>>::empty()),
                    ..old(self)@
                }),
                None => changes@.len() == 0 && final(self)@ == old(self)@,
            },
    {
        let mut tx = None;
        std::mem::swap(&mut tx, &mut self.watch_change_tx);
        match tx {
            Some(mut sender) => {
                let changes = sender.collect();
                self.watch_change_tx = Some(sender);
                changes
            },
            None => Vec::new(),
        }
    }

    /// Answers a request for a file.
    ///
    /// A cached path is answered from the table and counted as a hit. A new
    /// path is counted as a miss and its directory is announced to the watch
    /// detector; then, if the first load blocks, the bytes of the probe are
    /// stored and returned under version 0, and otherwise an empty
    /// placeholder is stored under version 0 and the path is queued for the
    /// loader. A name that could not be resolved is refused and not counted;
    /// so is, after the miss was counted, a first load that blocks on a file
    /// that could not be read.
    pub fn load(&mut self, probe: FileProbe) -> (r: Result<(u32, Vec<u8>), FileCacheError>)
        requires
            old(self).wf(),
            old(self)@.cache_hits < u32::MAX,
            old(self)@.cache_misses < u32::MAX,
            old(self)@.entry_updates < u32::MAX,
        ensures
            final(self).wf(),
            final(self)@ == old(self)@.after_load(probe@),
            match old(self)@.load_result(probe@) {
                Ok((version, content)) => r matches Ok((v, c)) && v == version && c@ == content,
                Err(e) => r == Err::<(u32, Vec<u8>), FileCacheError>(e),
            },
            old(self)@.precedes(final(self)@),
            final(self).cached_paths() == match probe@.canonical {
                Some(path) => if old(self)@.cache.contains_key(path) || (old(
                    self,
                )@.block_on_initial_load && probe@.content is None) {
                    old(self).cached_paths()
                } else {
                    old(self).cached_paths().push(path)
                },
                None => old(self).cached_paths(),
            },
    {
        let FileProbe { canonical, content } = probe;
        let full_filename = match canonical {
            Some(path) => path,
            None => {
                return Err(FileCacheError::Unresolved);
            },
        };
        match self.cache.get(&full_filename) {
            Some(cached) => {
                let answer = (cached.version(), cached.content().clone());
                self.cache_hits = self.cache_hits + 1;
                return Ok(answer);
            },
            None => {},
        }
        self.cache_misses = self.cache_misses + 1;
        self.request_watch(parent_directory(full_filename.as_str()));
        if self.block_on_initial_load {
            match FileCacheInternal::load_entry(content) {
                Ok(entry) => {
                    let s = entry.content().clone();
                    let v = entry.version();
                    let _ = self.update_entry(&full_filename, entry);
                    Ok((v, s))
                },
                Err(e) => Err(e),
            }
        } else {
            let entry = FileCacheEntry::default();
            let s = entry.content().clone();
            let v = entry.version();
            let _ = self.update_entry(&full_filename, entry);
            self.loading_queue_push_back(full_filename);
            Ok((v, s))
        }
    }
}

/// The paths of a poll's findings that are outdated, in the order of the
/// findings. A finding is a path, the time stored for it and the time found.
pub open spec fn stale_paths(findings: Seq<(String, Option<u64>, Option<u64>)>) -> Seq<Seq<char>>
    decreases findings.len(),
{
    if findings.len() == 0 {
        Seq::empty()
    } else {
        let last = findings.last();
        let before = stale_paths(findings.drop_last());
        if outdated(last.1, last.2) {
            before.push(last.0@)
        } else {
            before
        }
    }
}

impl FileCacheInternal {
    /// Answers a request for a file like `load`, with the bytes as text,
    /// decoded as UTF-8 with replacement of what is ill-formed.
    pub fn load_string(&mut self, probe: FileProbe) -> (r: Result<(u32, String), FileCacheError>)
        requires
            old(self).wf(),
            old(self)@.cache_hits < u32::MAX,
            old(self)@.cache_misses < u32::MAX,
            old(self)@.entry_updates < u32::MAX,
        ensures
            final(self).wf(),
            final(self)@ == old(self)@.after_load(probe@),
            match old(self)@.load_result(probe@) {
                Ok((version, content)) => {
                    &&& r matches Ok((v, text))
                    &&& v == version
                    &&& text@ == utf8_lossy(content)
                    &&& valid_utf8(content) ==> text@ == decode_utf8(content)
                    &&& content.len() == 0 ==> text@.len() == 0
                },
                Err(e) => r == Err::<(u32, String), FileCacheError>(e),
            },
            old(self)@.precedes(final(self)@),
    {
        match self.load(probe) {
            Ok((version, data)) => Ok(versioned_text(version, &data)),
            Err(e) => Err(e),
        }
    }

    /// Finishes the loader's work on one queued path. `read` holds the bytes
    /// if the file could be read, `modified` the modification time found
    /// after reading.
    pub fn reload(&mut self, path: &String, read: Option<Vec<u8>>, modified: Option<u64>) -> (r:
        ReloadOutcome)
        requires
            old(self).wf(),
            old(self)@.entry_updates < u32::MAX,
        ensures
            final(self).wf(),
            final(self)@ == old(self)@.after_reload(
                path@,
                match read {
                    Some(bytes) => Some(bytes@),
                    None => None,
                },
                modified,
            ),
            old(self)@.precedes(final(self)@),
            r == match read {
                Some(bytes) => if old(self)@.is_redundant(
                    path@,
                    EntryModel { version: 0, content: bytes@, modification_time: modified },
                ) {
                    ReloadOutcome::Unmodified
                } else {
                    ReloadOutcome::Updated(old(self)@.next_version(path@) as u32)
                },
                None => ReloadOutcome::Dropped,
            },
            final(self).cached_paths() == if read is Some && !old(self)@.cache.contains_key(path@) {
                old(self).cached_paths().push(path@)
            } else {
                old(self).cached_paths()
            },
    {
        match FileCacheInternal::load_entry(read) {
            Ok(entry) => {
                let mut entry = entry;
                entry.set_modification_time(modified);
                if self.is_redundant_update(path, &entry) {
                    ReloadOutcome::Unmodified
                } else {
                    let version: u32 = match self.cache.get(path) {
                        Some(old_entry) => old_entry.version() + 1,
                        None => 0,
                    };
                    let _ = self.update_entry(path, entry);
                    ReloadOutcome::Updated(version)
                }
            },
            Err(_) => ReloadOutcome::Dropped,
        }
    }

    /// The poll detector's rule: a file is outdated if a time is stored for
    /// it and the time found is later. A missing file is never outdated.
    pub fn is_outdated(stored: &Option<u64>, live: &Option<u64>) -> (b: bool)
        ensures
            b == outdated(*stored, *live),
    {
        match (stored, live) {
            (Some(o), Some(n)) => *n > *o,
            _ => false,
        }
    }

    /// Every cached path with the modification time stored for it, in the
    /// order of first requests.
    pub fn poll_snapshot(&self) -> (snapshot: Vec<(String, Option<u64>)>)
        requires
            self.wf(),
        ensures
            snapshot@.len() == self.cached_paths().len(),
            forall|i: int|
                0 <= i < snapshot@.len() ==> {
                    &&& (#[trigger] snapshot@[i]).0@ == self.cached_paths()[i]
                    &&& self@.cache.contains_key(snapshot@[i].0@)
                    &&& snapshot@[i].1 == self@.cache[snapshot@[i].0@].modification_time
                },
    {
        let mut snapshot: Vec<(String, Option<u64>)> = Vec::new();
        let n: usize = self.cache.len();
        let mut i: usize = 0;
        while i < n
            invariant
                self.wf(),
                n == self.cache.paths().len(),
                i <= n,
                snapshot@.len() == i,
                forall|k: int|
                    0 <= k < i ==> {
                        &&& (#[trigger] snapshot@[k]).0@ == self.cache.paths()[k]
                        &&& self.cache@.contains_key(snapshot@[k].0@)
                        &&& snapshot@[k].1 == self.cache@[snapshot@[k].0@].modification_time
                    },
            decreases n - i,
        {
            let stamp = self.cache.stamp_at(i);
            snapshot.push(stamp);
            i += 1;
        }
        snapshot
    }

    /// Applies the poll detector's rule to one file and queues it for the
    /// loader if it is outdated. Returns whether it was queued.
    pub fn poll_check(&mut self, path: String, stored: Option<u64>, live: Option<u64>) -> (queued:
        bool)
        requires
            old(self).wf(),
        ensures
            final(self).wf(),
            queued == outdated(stored, live),
            final(self)@ == old(self)@.after_poll(path@, stored, live),
            final(self).cached_paths() == old(self).cached_paths(),
    {
        if FileCacheInternal::is_outdated(&stored, &live) {
            self.loading_queue_push_back(path);
            true
        } else {
            false
        }
    }

    /// Tells the cache that `path` was written or created. The path is
    /// queued for the loader if it is cached, and passed over otherwise.
    /// Returns whether it was queued.
    pub fn file_changed(&mut self, path: String) -> (queued: bool)
        requires
            old(self).wf(),
        ensures
            final(self).wf(),
            queued == old(self)@.cache.contains_key(path@),
            final(self)@ == old(self)@.after_file_change(path@),
            final(self).cached_paths() == old(self).cached_paths(),
    {
        if self.cache.contains_key(&path) {
            self.loading_queue_push_back(path);
            true
        } else {
            false
        }
    }

    /// One pass of the poll detector over its findings: every outdated path
    /// is queued for the loader, in the order of the findings. Returns how
    /// many were queued.
    pub fn run_poll(&mut self, findings: Vec<(String, Option<u64>, Option<u64>)>) -> (queued: usize)
        requires
            old(self).wf(),
        ensures
            final(self).wf(),
            final(self)@ == (CacheModel {
                loading_queue: old(self)@.loading_queue + stale_paths(findings@),
                ..old(self)@
            }),
            queued == stale_paths(findings@).len(),
            final(self).cached_paths() == old(self).cached_paths(),
    {
        let mut findings = findings;
        let ghost all = findings@;
        let total: usize = findings.len();
        let mut rest: Vec<(String, Option<u64>, Option<u64>)> = Vec::new();
        // Findings are taken from the back, so turn them round first.
        while findings.len() > 0
            invariant
                all.len() == total,
                findings@.len() + rest@.len() == all.len(),
                forall|k: int| 0 <= k < findings@.len() ==> findings@[k] == all[k],
                forall|k: int|
                    0 <= k < rest@.len() ==> #[trigger] rest@[k] == all[all.len() - 1 - k],
            decreases findings@.len(),
        {
            match findings.pop() {
                Some(f) => rest.push(f),
                None => {},
            }
        }
        let mut queued: usize = 0;
        let ghost mut done: Seq<(String, Option<u64>, Option<u64>)> = Seq::empty();
        assert(stale_paths(done) =~= Seq::<Seq<char>>::empty());
        assert(self@.loading_queue =~= old(self)@.loading_queue + stale_paths(done));
        while rest.len() > 0
            invariant
                self.wf(),
                all.len() == total,
                done.len() + rest@.len() == all.len(),
                done == all.subrange(0, done.len() as int),
                forall|k: int|
                    0 <= k < rest@.len() ==> #[trigger] rest@[k] == all[all.len() - 1 - k],
                self@ == (CacheModel {
                    loading_queue: old(self)@.loading_queue + stale_paths(done),
                    ..old(self)@
                }),
                queued == stale_paths(done).len(),
                queued <= done.len(),
                self.cached_paths() == old(self).cached_paths(),
            decreases rest@.len(),
        {
            let ghost before = self@;
            match rest.pop() {
                Some(f) => {
                    proof {
                        assert(f == all[done.len() as int]);
                        let next = done.push(f);
                        assert(next.drop_last() =~= done);
                        assert(next.last() == f);
                        assert(next =~= all.subrange(0, next.len() as int));
                        done = next;
                        assert(queued < done.len());
                    }
                    let (path, stored, live) = f;
                    if self.poll_check(path, stored, live) {
                        queued += 1;
                    }
                    assert(self@.loading_queue =~= old(self)@.loading_queue + stale_paths(done));
                },
                None => {},
            }
        }
        assert(done =~= all);
        queued
    }
}

} // verus!
