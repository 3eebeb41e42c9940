//! The cache handle: the interface through which readers, the loader and the
//! detectors use one cache.

use vstd::prelude::*;
use vstd::string::*;
use vstd::utf8::{decode_utf8, valid_utf8};
use crate::cache_model::{CacheModel, FileCacheError};
use crate::canonical_path::{drive_letter_form, starts_with_verbatim_disk};
use crate::change_wait::ChangeWait;
use crate::file_cache_internal::{stale_paths, FileCacheInternal, FileProbe, ReloadOutcome};
use crate::text::utf8_lossy;
use crate::watch_change::{requested_paths, WatchChange, WatchChangeTx};
use crate::watch_detector::{Received, WatchEvent};

verus! {

/// How changes on disk are detected.
#[derive(Debug, Clone, Copy, PartialEq, Eq, Structural)]
pub enum FileCacheMode {
    /// Compare modification times at intervals.
    Poll,
    /// Subscribe to file-system events.
    Watch,
}

/// A versioned, hot-reloading cache of file contents.
#[derive(Debug)]
pub struct FileCache {
    internal: FileCacheInternal,
    mode: FileCacheMode,
}

impl View for FileCache {
    type V = CacheModel;

    closed spec fn view(&self) -> CacheModel {
        self.internal@
    }
}

impl FileCache {
    pub closed spec fn wf(&self) -> bool {
        self.internal.wf()
    }

    /// The detector that `run` starts.
    pub closed spec fn mode(&self) -> FileCacheMode {
        self.mode
    }

    /// The cached paths in the order of their first request.
    pub closed spec fn cached_paths(&self) -> Seq<Seq<char>> {
        self.internal.cached_paths()
    }

    /// The canonical form of a path that the file system resolved, in
    /// drive-letter form; `None` stands for a path that could not be
    /// resolved.
    pub fn canonicalize(resolved: Option<&str>) -> (r: Result<String, FileCacheError>)
        ensures
            match resolved {
                Some(path) => r matches Ok(c) && c@ == drive_letter_form(path@),
                None => r == Err::<String, FileCacheError>(FileCacheError::Unresolved),
            },
    {
        match resolved {
            Some(path) => {
                if starts_with_verbatim_disk(path) {
                    let n: usize = path.unicode_len();
                    Ok(String::from_str(path.substring_char(4, n)))
                } else {
                    Ok(String::from_str(path))
                }
            },
            None => Err(FileCacheError::Unresolved),
        }
    }

    pub fn new() -> (c: FileCache)
        ensures
            c.wf(),
            c@ == CacheModel::initial(),
            c.mode() == FileCacheMode::Poll,
            c.cached_paths() == Seq::<Seq<char>>::empty(),
    {
        FileCache { internal: FileCacheInternal::new(), mode: FileCacheMode::Poll }
    }

    pub fn set_mode(&mut self, mode: FileCacheMode)
        ensures
            final(self).mode() == mode,
            final(self)@ == old(self)@,
            final(self).wf() == old(self).wf(),
            final(self).cached_paths() == old(self).cached_paths(),
    {
        self.mode = mode;
    }

    pub fn enable_block_on_initial_load(&mut self)
        requires
            old(self).wf(),
        ensures
            final(self).wf(),
            final(self)@ == (CacheModel { block_on_initial_load: true, ..old(self)@ }),
            final(self).mode() == old(self).mode(),
            final(self).cached_paths() == old(self).cached_paths(),
    {
        self.internal.enable_block_on_initial_load();
    }

    pub fn disable_block_on_initial_load(&mut self)
        requires
            old(self).wf(),
        ensures
            final(self).wf(),
            final(self)@ == (CacheModel { block_on_initial_load: false, ..old(self)@ }),
            final(self).mode() == old(self).mode(),
            final(self).cached_paths() == old(self).cached_paths(),
    {
        self.internal.disable_block_on_initial_load();
    }

    /// Prepares the cache for its background workers and says which
    /// detector to start. In watch mode the watch detector is connected and
    /// asked to watch the base path.
    pub fn run(&mut self) -> (detector: FileCacheMode)
        requires
            old(self).wf(),
        ensures
            final(self).wf(),
            detector == old(self).mode(),
            final(self).mode() == old(self).mode(),
            final(self).cached_paths() == old(self).cached_paths(),
            final(self)@ == match old(self).mode() {
                FileCacheMode::Poll => old(self)@,
                FileCacheMode::Watch => CacheModel {
                    watch_changes: Some(seq![old(self)@.base_path]),
                    ..old(self)@
                },
            },
    {
        match self.mode {
            FileCacheMode::Poll => {},
            FileCacheMode::Watch => {
                self.run_watch();
            },
        }
        self.mode
    }

    /// Connects the watch detector and asks it to watch the base path.
    /// From now on the directory of every newly requested path is announced
    /// to it; the requests are kept until the detector takes them.
    pub fn run_watch(&mut self)
        requires
            old(self).wf(),
        ensures
            final(self).wf(),
            final(self).mode() == old(self).mode(),
            final(self).cached_paths() == old(self).cached_paths(),
            final(self)@ == (CacheModel {
                watch_changes: Some(seq![old(self)@.base_path]),
                ..old(self)@
            }),
    {
        self.internal.set_watch_change_tx(Some(WatchChangeTx::new()));
        let base_path = self.internal.base_path().clone();
        self.internal.request_watch(base_path);
        assert(self@.watch_changes->0 =~= seq![old(self)@.base_path]);
    }

    /// Maintenance hook; changes nothing.
    pub fn update(&mut self)
        ensures
            *final(self) == *old(self),
    {
        self.internal.update();
    }

    /// Sets the directory against which relative names are resolved; the
    /// caller passes it in canonical form.
    pub fn set_base_path(&mut self, base_path: &String)
        requires
            old(self).wf(),
        ensures
            final(self).wf(),
            final(self)@ == (CacheModel { base_path: base_path@, ..old(self)@ }),
            final(self).mode() == old(self).mode(),
            final(self).cached_paths() == old(self).cached_paths(),
    {
        self.internal.set_base_path(base_path.clone());
    }

    pub fn base_path(&self) -> (p: &String)
        ensures
            p@ == self@.base_path,
    {
        self.internal.base_path()
    }

    /// Whether `canonical` is cached.
    pub fn is_cached(&self, canonical: &String) -> (b: bool)
        ensures
            b == self@.cache.contains_key(canonical@),
    {
        self.internal.cache().contains_key(canonical)
    }

    /// Whether a request for `canonical` will need the file's bytes.
    pub fn needs_initial_read(&self, canonical: &String) -> (b: bool)
        ensures
            b == (self@.block_on_initial_load && !self@.cache.contains_key(canonical@)),
    {
        self.internal.needs_initial_read(canonical)
    }

    /// Whether each counter can still be raised by one, which `load` and
    /// `reload` need.
    pub fn has_room(&self) -> (b: bool)
        ensures
            b == (self@.cache_hits < u32::MAX && self@.cache_misses < u32::MAX
                && self@.entry_updates < u32::MAX),
    {
        self.internal.cache_hits() < u32::MAX && self.internal.cache_misses() < u32::MAX
            && self.internal.entry_updates() < u32::MAX
    }

    /// Answers a request for a file with its version and bytes.
    pub fn load(&mut self, probe: FileProbe) -> (r: Result<(u32, Vec<u8>), FileCacheError>)
        requires
            old(self).wf(),
            old(self)@.cache_hits < u32::MAX,
            old(self)@.cache_misses < u32::MAX,
            old(self)@.entry_updates < u32::MAX,
        ensures
            final(self).wf(),
            final(self).mode() == old(self).mode(),
            final(self)@ == old(self)@.after_load(probe@),
            match old(self)@.load_result(probe@) {
                Ok((version, content)) => r matches Ok((v, c)) && v == version && c@ == content,
                Err(e) => r == Err::<(u32, Vec<u8>), FileCacheError>(e),
            },
            old(self)@.precedes(final(self)@),
            final(self).cached_paths() == match probe@.canonical {
                Some(path) => if old(self)@.cache.contains_key(path) || (old(
                    self,
                )@.block_on_initial_load && probe@.content is None) {
                    old(self).cached_paths()
                } else {
                    old(self).cached_paths().push(path)
                },
                None => old(self).cached_paths(),
            },
    {
        self.internal.load(probe)
    }

    /// Answers a request for a file with its version and its bytes as text,
    /// decoded as UTF-8 with replacement of what is ill-formed.
    pub fn load_string(&mut self, probe: FileProbe) -> (r: Result<(u32, String), FileCacheError>)
        requires
            old(self).wf(),
            old(self)@.cache_hits < u32::MAX,
            old(self)@.cache_misses < u32::MAX,
            old(self)@.entry_updates < u32::MAX,
        ensures
            final(self).wf(),
            final(self).mode() == old(self).mode(),
            final(self)@ == old(self)@.after_load(probe@),
            match old(self)@.load_result(probe@) {
                Ok((version, content)) => {
                    &&& r matches Ok((v, text))
                    &&& v == version
                    &&& text@ == utf8_lossy(content)
                    &&& valid_utf8(content) ==> text@ == decode_utf8(content)
                    &&& content.len() == 0 ==> text@.len() == 0
                },
                Err(e) => r == Err::<(u32, String), FileCacheError>(e),
            },
            old(self)@.precedes(final(self)@),
    {
        self.internal.load_string(probe)
    }

    pub fn cache_misses(&self) -> (n: u32)
        ensures
            n == self@.cache_misses,
    {
        self.internal.cache_misses()
    }

    pub fn cache_hits(&self) -> (n: u32)
        ensures
            n == self@.cache_hits,
    {
        self.internal.cache_hits()
    }

    pub fn entry_updates(&self) -> (n: u32)
        ensures
            n == self@.entry_updates,
    {
        self.internal.entry_updates()
    }

    /// Begins a bounded wait for the next update of the cache.
    pub fn wait_for_change_with_timeout(&self, timeout_nanos: u128) -> (w: ChangeWait)
        ensures
            w == (ChangeWait {
                remaining_nanos: timeout_nanos,
                baseline: self@.entry_updates as u32,
                changed: false,
            }),
    {
        ChangeWait::start(timeout_nanos, self.entry_updates())
    }
}

/// What the loader and the detectors do to the cache.
impl FileCache {
    /// Takes the next path off the loading queue, for the loader to read.
    pub fn next_reload(&mut self) -> (front: Option<String>)
        requires
            old(self).wf(),
        ensures
            final(self).wf(),
            final(self).mode() == old(self).mode(),
            final(self).cached_paths() == old(self).cached_paths(),
            match front {
                Some(path) => old(self)@.loading_queue.len() > 0 && path@ == old(
                    self,
                )@.loading_queue[0] && final(self)@ == (CacheModel {
                    loading_queue: old(self)@.loading_queue.drop_first(),
                    ..old(self)@
                }),
                None => old(self)@.loading_queue.len() == 0 && final(self)@ == old(self)@,
            },
    {
        self.internal.loading_queue_pop_front()
    }

    /// Finishes the loader's work on one path: `read` holds the bytes if the
    /// file could be read, `modified` the modification time found after
    /// reading. A file that could not be read changes nothing.
    pub fn reload(&mut self, path: &String, read: Option<Vec<u8>>, modified: Option<u64>) -> (r:
        ReloadOutcome)
        requires
            old(self).wf(),
            old(self)@.entry_updates < u32::MAX,
        ensures
            final(self).wf(),
            final(self).mode() == old(self).mode(),
            final(self)@ == old(self)@.after_reload(
                path@,
                match read {
                    Some(bytes) => Some(bytes@),
                    None => None,
                },
                modified,
            ),
            old(self)@.precedes(final(self)@),
            r == match read {
                Some(bytes) => if old(self)@.is_redundant(
                    path@,
                    crate::cache_entry::EntryModel {
                        version: 0,
                        content: bytes@,
                        modification_time: modified,
                    },
                ) {
                    ReloadOutcome::Unmodified
                } else {
                    ReloadOutcome::Updated(old(self)@.next_version(path@) as u32)
                },
                None => ReloadOutcome::Dropped,
            },
    {
        self.internal.reload(path, read, modified)
    }

    /// Every cached path with the modification time stored for it, for the
    /// poll detector to compare with the file system.
    pub fn poll_snapshot(&self) -> (snapshot: Vec<(String, Option<u64>)>)
        requires
            self.wf(),
        ensures
            snapshot@.len() == self.cached_paths().len(),
            forall|i: int|
                0 <= i < snapshot@.len() ==> {
                    &&& (#[trigger] snapshot@[i]).0@ == self.cached_paths()[i]
                    &&& self@.cache.contains_key(snapshot@[i].0@)
                    &&& snapshot@[i].1 == self@.cache[snapshot@[i].0@].modification_time
                },
    {
        self.internal.poll_snapshot()
    }

    /// One pass of the poll detector. A finding is a path, the modification
    /// time stored for it and the one found on disk, if any. Every path
    /// whose time on disk is later than the stored one is queued for the
    /// loader; a path without a stored time or without a file is not.
    /// Returns how many were queued.
    pub fn run_poll(&mut self, findings: Vec<(String, Option<u64>, Option<u64>)>) -> (queued: usize)
        requires
            old(self).wf(),
        ensures
            final(self).wf(),
            final(self).mode() == old(self).mode(),
            final(self).cached_paths() == old(self).cached_paths(),
            final(self)@ == (CacheModel {
                loading_queue: old(self)@.loading_queue + stale_paths(findings@),
                ..old(self)@
            }),
            queued == stale_paths(findings@).len(),
    {
        self.internal.run_poll(findings)
    }

    /// Handles what the watch detector found in its channel of file-system
    /// events; see `watch_detector::run_watch_wait_for_file_changes`.
    pub fn run_watch_wait_for_file_changes(&mut self, received: Received<WatchEvent>) -> (done: bool)
        requires
            old(self).wf(),
        ensures
            final(self).wf(),
            final(self).mode() == old(self).mode(),
            final(self).cached_paths() == old(self).cached_paths(),
            done == (received is Disconnected),
            final(self)@ == match received {
                Received::Message(event) => match event.changed_path() {
                    Some(path) => old(self)@.after_file_change(path),
                    None => old(self)@,
                },
                _ => old(self)@,
            },
    {
        crate::watch_detector::run_watch_wait_for_file_changes(received, &mut self.internal)
    }

    /// Hands out the watch requests made since the last call, oldest first.
    pub fn take_watch_changes(&mut self) -> (changes: Vec<WatchChange>)
        requires
            old(self).wf(),
        ensures
            final(self).wf(),
            final(self).mode() == old(self).mode(),
            final(self).cached_paths() == old(self).cached_paths(),
            match old(self)@.watch_changes {
                Some(sent) => requested_paths(changes@) == sent && final(self)@ == (CacheModel {
                    watch_changes: Some(Seq::<Seq<char>>::empty()),
                    ..old(self)@
                }),
                None => changes@.len() == 0 && final(self)@ == old(self)@,
            },
    {
        self.internal.take_watch_changes()
    }
}

} // verus!
