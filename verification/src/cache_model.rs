//! The cache as a mathematical value, and what each operation does to it.

use vstd::prelude::*;
use crate::cache_entry::{empty_entry, EntryModel};
use crate::canonical_path::directory_of;

verus! {

/// Why a request could not be answered.
#[derive(Debug, Clone, Copy, PartialEq, Eq, Structural)]
pub enum FileCacheError {
    /// The file name could not be resolved to a canonical path.
    Unresolved,
    /// The file could not be read.
    Unreadable,
}

/// What the file system answered about one requested file.
pub struct ProbeModel {
    /// The canonical path, unless the name could not be resolved.
    pub canonical: Option<Seq<char>>,
    /// The bytes of the file, unless it was not read or could not be read.
    pub content: Option<Seq<u8>>,
}

/// The state of a cache: table, queue, counters and settings.
pub struct CacheModel {
    pub base_path: Seq<char>,
    pub cache_misses: nat,
    pub cache_hits: nat,
    pub entry_updates: nat,
    pub cache: Map<Seq<char>, EntryModel>,
    pub loading_queue: Seq<Seq<char>>,
    pub block_on_initial_load: bool,
    /// The directories that were asked to be watched and not yet collected,
    /// if a watch detector is connected.
    pub watch_changes: Option<Seq<Seq<char>>>,
}

/// When a poll finds a file outdated: both times are known and the live one
/// is later.
pub open spec fn outdated(stored: Option<u64>, live: Option<u64>) -> bool {
    stored matches Some(o) && live matches Some(n) && n > o
}

impl CacheModel {
    /// The state of a cache that was just made.
    pub open spec fn initial() -> CacheModel {
        CacheModel {
            base_path: seq!['.'],
            cache_misses: 0,
            cache_hits: 0,
            entry_updates: 0,
            cache: Map::empty(),
            loading_queue: Seq::empty(),
            block_on_initial_load: false,
            watch_changes: None,
        }
    }

    /// The version under which `path` is stored next: zero for a first
    /// entry, else one more than the version it replaces.
    pub open spec fn next_version(self, path: Seq<char>) -> nat {
        if self.cache.contains_key(path) {
            self.cache[path].version + 1
        } else {
            0
        }
    }

    /// An update must come with a modification time that differs from the
    /// stored one; this one does not.
    pub open spec fn is_redundant(self, path: Seq<char>, entry: EntryModel) -> bool {
        self.cache.contains_key(path) && self.cache[path].modification_time
            == entry.modification_time
    }

    /// The state after `entry` was stored under `path`.
    pub open spec fn after_update_entry(self, path: Seq<char>, entry: EntryModel) -> CacheModel {
        CacheModel {
            entry_updates: self.entry_updates + 1,
            cache: self.cache.insert(
                path,
                EntryModel { version: self.next_version(path), ..entry },
            ),
            ..self
        }
    }

    /// The state after the watch detector, if one is connected, was asked to
    /// watch the directory `path`.
    pub open spec fn after_watch_request(self, path: Seq<char>) -> CacheModel {
        match self.watch_changes {
            Some(sent) => CacheModel { watch_changes: Some(sent.push(path)), ..self },
            None => self,
        }
    }

    /// The state after `path` was put at the end of the loading queue.
    pub open spec fn after_enqueue(self, path: Seq<char>) -> CacheModel {
        CacheModel { loading_queue: self.loading_queue.push(path), ..self }
    }

    /// What a request for a file is answered with.
    pub open spec fn load_result(self, probe: ProbeModel) -> Result<(nat, Seq<u8>), FileCacheError> {
        match probe.canonical {
            None => Err(FileCacheError::Unresolved),
            Some(path) => if self.cache.contains_key(path) {
                Ok((self.cache[path].version, self.cache[path].content))
            } else if self.block_on_initial_load {
                match probe.content {
                    Some(bytes) => Ok((0, bytes)),
                    None => Err(FileCacheError::Unreadable),
                }
            } else {
                Ok((0, Seq::empty()))
            },
        }
    }

    /// The state after a request for a file.
    pub open spec fn after_load(self, probe: ProbeModel) -> CacheModel {
        match probe.canonical {
            None => self,
            Some(path) => if self.cache.contains_key(path) {
                CacheModel { cache_hits: self.cache_hits + 1, ..self }
            } else {
                let missed = CacheModel {
                    cache_misses: self.cache_misses + 1,
                    ..self
                }.after_watch_request(directory_of(path));
                if self.block_on_initial_load {
                    match probe.content {
                        Some(bytes) => missed.after_update_entry(
                            path,
                            EntryModel { content: bytes, ..empty_entry() },
                        ),
                        None => missed,
                    }
                } else {
                    missed.after_update_entry(path, empty_entry()).after_enqueue(path)
                }
            },
        }
    }

    /// The state after the loader finished one queued path: `read` holds the
    /// bytes if the file could be read, `modified` the time found afterwards.
    /// A file that cannot be read leaves everything as it was, and so does a
    /// redundant update.
    pub open spec fn after_reload(
        self,
        path: Seq<char>,
        read: Option<Seq<u8>>,
        modified: Option<u64>,
    ) -> CacheModel {
        match read {
            Some(bytes) => {
                let entry = EntryModel { version: 0, content: bytes, modification_time: modified };
                if self.is_redundant(path, entry) {
                    self
                } else {
                    self.after_update_entry(path, entry)
                }
            },
            None => self,
        }
    }

    /// The state after the poll detector looked at one file.
    pub open spec fn after_poll(
        self,
        path: Seq<char>,
        stored: Option<u64>,
        live: Option<u64>,
    ) -> CacheModel {
        if outdated(stored, live) {
            self.after_enqueue(path)
        } else {
            self
        }
    }

    /// The state after the watch detector was told that `path` was written
    /// or created.
    pub open spec fn after_file_change(self, path: Seq<char>) -> CacheModel {
        if self.cache.contains_key(path) {
            self.after_enqueue(path)
        } else {
            self
        }
    }

    /// Every stored version is below the number of updates so far.
    pub open spec fn versions_counted(self) -> bool {
        forall|p: Seq<char>| #[trigger]
            self.cache.contains_key(p) ==> self.cache[p].version < self.entry_updates
    }

    /// `later` still holds every path of `self`, under a version that is not
    /// smaller.
    pub open spec fn precedes(self, later: CacheModel) -> bool {
        forall|p: Seq<char>| #[trigger]
            self.cache.contains_key(p) ==> later.cache.contains_key(p) && self.cache[p].version
                <= later.cache[p].version
    }
}

} // verus!
