//! The decisions of the watch detector: which file-system events lead to a
//! reload, and how the set of watched roots grows.

use vstd::prelude::*;
use crate::canonical_path::{covered_by, is_covered_by, lemma_directory_covers};
use crate::file_cache_internal::FileCacheInternal;
use crate::watch_change::WatchChange;

verus! {

/// A debounced file-system event, as the watcher reports it.
#[derive(Debug)]
pub enum WatchEvent {
    /// A write was noticed; the content is not settled yet.
    NoticeWrite(String),
    /// A removal was noticed.
    NoticeRemove(String),
    Create(String),
    Write(String),
    Chmod(String),
    Remove(String),
    Rename(String, String),
    Rescan,
    /// The watcher reported an error, possibly about a path.
    Error(Option<String>),
}

impl WatchEvent {
    /// The path whose content the event says is new, if it says so.
    pub open spec fn changed_path(&self) -> Option<Seq<char>> {
        match self {
            WatchEvent::Write(path) => Some(path@),
            WatchEvent::Create(path) => Some(path@),
            _ => None,
        }
    }
}

/// What a look into a channel found, without waiting.
#[derive(Debug)]
pub enum Received<T> {
    Message(T),
    /// Nothing is waiting.
    Empty,
    /// The other side is gone.
    Disconnected,
}

/// The roots that are subscribed for file-system events. Roots are added and
/// never taken away.
#[derive(Debug)]
pub struct WatchRootSet {
    roots: Vec<String>,
}

impl View for WatchRootSet {
    type V = Set<Seq<char>>;

    closed spec fn view(&self) -> Set<Seq<char>> {
        Set::new(|p: Seq<char>| exists|i: int| 0 <= i < self.roots@.len() && (#[trigger] self.roots@[i])@ == p)
    }
}

impl WatchRootSet {
    /// No root is kept twice.
    pub closed spec fn wf(&self) -> bool {
        forall|i: int, j: int|
            0 <= i < self.roots@.len() && 0 <= j < self.roots@.len() && i != j ==> (
            #[trigger] self.roots@[i])@ != (#[trigger] self.roots@[j])@
    }

    /// The roots in the order in which they were added.
    pub closed spec fn names(&self) -> Seq<Seq<char>> {
        Seq::new(self.roots@.len(), |i: int| self.roots@[i]@)
    }

    /// The set holds exactly the listed roots, each listed once.
    pub proof fn lemma_names(&self)
        requires
            self.wf(),
        ensures
            self.names().no_duplicates(),
            self@ == self.names().to_set(),
            self@.finite(),
            self@.len() == self.names().len(),
    {
        let names = self.names();
        assert(names.no_duplicates()) by {
            assert forall|i: int, j: int|
                0 <= i < names.len() && 0 <= j < names.len() && i != j implies names[i]
                != names[j] by {
                assert(self.roots@[i]@ != self.roots@[j]@);
            }
        }
        assert(self@ =~= names.to_set()) by {
            assert forall|p: Seq<char>| self@.contains(p) <==> names.to_set().contains(p) by {
                if self@.contains(p) {
                    let k = choose|k: int|
                        0 <= k < self.roots@.len() && (#[trigger] self.roots@[k])@ == p;
                    assert(names[k] == p);
                }
                if names.contains(p) {
                    let k = choose|k: int| 0 <= k < names.len() && names[k] == p;
                    assert(self.roots@[k]@ == p);
                }
            }
        }
        names.unique_seq_to_set();
        vstd::seq_lib::seq_to_set_is_finite::<Seq<char>>(names);
    }

    pub fn new() -> (s: WatchRootSet)
        ensures
            s.wf(),
            s@ == Set::<Seq<char>>::empty(),
    {
        let s = WatchRootSet { roots: Vec::new() };
        assert(s@ =~= Set::<Seq<char>>::empty());
        s
    }

    /// The number of roots.
    pub fn len(&self) -> (n: usize)
        requires
            self.wf(),
        ensures
            self@.finite(),
            n == self@.len(),
    {
        proof {
            self.lemma_names();
        }
        self.roots.len()
    }

    pub fn contains(&self, root: &String) -> (b: bool)
        ensures
            b == self@.contains(root@),
    {
        let mut i: usize = 0;
        while i < self.roots.len()
            invariant
                i <= self.roots@.len(),
                forall|k: int| 0 <= k < i ==> (#[trigger] self.roots@[k])@ != root@,
            decreases self.roots@.len() - i,
        {
            if self.roots[i] == *root {
                return true;
            }
            i += 1;
        }
        false
    }

    /// Some root is `path` or a directory above it.
    pub open spec fn covers(&self, path: Seq<char>) -> bool {
        exists|root: Seq<char>| #[trigger] self@.contains(root) && covered_by(root, path)
    }

    /// Whether events for `path` are already subscribed: whether some root
    /// is `path` or a directory above it.
    pub fn is_covered(&self, path: &String) -> (b: bool)
        ensures
            b == self.covers(path@),
    {
        let mut i: usize = 0;
        while i < self.roots.len()
            invariant
                i <= self.roots@.len(),
                forall|k: int| 0 <= k < i ==> !covered_by((#[trigger] self.roots@[k])@, path@),
            decreases self.roots@.len() - i,
        {
            if is_covered_by(self.roots[i].as_str(), path.as_str()) {
                assert(self@.contains(self.roots@[i as int]@));
                return true;
            }
            i += 1;
        }
        assert(!self.covers(path@)) by {
            if self.covers(path@) {
                let root = choose|root: Seq<char>| #[trigger]
                    self@.contains(root) && covered_by(root, path@);
                let k = choose|k: int| 0 <= k < self.roots@.len() && (#[trigger] self.roots@[k])@ == root;
                assert(!covered_by(self.roots@[k]@, path@));
            }
        }
        false
    }

    /// Adds a root. Returns whether it was new.
    pub fn add(&mut self, root: String) -> (added: bool)
        requires
            old(self).wf(),
        ensures
            final(self).wf(),
            final(self)@ == old(self)@.insert(root@),
            added == !old(self)@.contains(root@),
    {
        if self.contains(&root) {
            assert(self@ =~= old(self)@.insert(root@));
            false
        } else {
            self.roots.push(root);
            assert(self@ =~= old(self)@.insert(root@)) by {
                assert forall|p: Seq<char>| self@.contains(p) <==> old(self)@.insert(root@).contains(
                    p,
                ) by {
                    if old(self)@.contains(p) {
                        let k = choose|k: int|
                            0 <= k < old(self).roots@.len() && (#[trigger] old(self).roots@[k])@
                                == p;
                        assert(self.roots@[k]@ == p);
                    }
                    if p == root@ {
                        assert(self.roots@[old(self).roots@.len() as int]@ == p);
                    }
                }
            }
            true
        }
    }
}

/// Handles what the watch detector found in its channel of file-system
/// events. A written or created file is queued for the loader if it is
/// cached; every other event is passed over. Returns whether the detector is
/// done, which it is once the channel is disconnected.
pub fn run_watch_wait_for_file_changes(
    received: Received<WatchEvent>,
    internal: &mut FileCacheInternal,
) -> (done: bool)
    requires
        old(internal).wf(),
    ensures
        final(internal).wf(),
        final(internal).cached_paths() == old(internal).cached_paths(),
        done == (received is Disconnected),
        final(internal)@ == match received {
            Received::Message(event) => match event.changed_path() {
                Some(path) => old(internal)@.after_file_change(path),
                None => old(internal)@,
            },
            _ => old(internal)@,
        },
{
    match received {
        Received::Message(event) => {
            match event {
                WatchEvent::Write(full_path) | WatchEvent::Create(full_path) => {
                    internal.file_changed(full_path);
                },
                _ => {},
            }
            false
        },
        Received::Empty => false,
        Received::Disconnected => true,
    }
}

/// Handles what the watch detector found in its channel of watch requests.
/// A requested directory that no root covers yet joins the set of roots and
/// is returned, so that the caller subscribes to it; one that is covered
/// needs nothing. The flag says whether the detector is done, which it is
/// once the channel is disconnected.
pub fn run_watch_wait_for_watch_changes(
    received: Received<WatchChange>,
    roots: &mut WatchRootSet,
) -> (r: (bool, Option<String>))
    requires
        old(roots).wf(),
    ensures
        final(roots).wf(),
        old(roots)@.subset_of(final(roots)@),
        r.0 == (received is Disconnected),
        match received {
            Received::Message(change) => if old(roots).covers(change@) {
                r.1 is None && final(roots)@ == old(roots)@
            } else {
                r.1 matches Some(path) && path@ == change@ && final(roots)@ == old(roots)@.insert(
                    change@,
                )
            },
            _ => r.1 is None && final(roots)@ == old(roots)@,
        },
        received matches Received::Message(change) ==> final(roots).covers(change@),
{
    match received {
        Received::Message(change) => {
            match change {
                WatchChange::Add(added) => {
                    if roots.is_covered(&added) {
                        (false, None)
                    } else {
                        roots.add(added.clone());
                        proof {
                            lemma_directory_covers(added@);
                            assert(roots@.contains(added@) && covered_by(added@, added@));
                        }
                        (false, Some(added))
                    }
                },
            }
        },
        Received::Empty => (false, None),
        Received::Disconnected => (true, None),
    }
}

/// Roots are never taken away, so what is covered stays covered.
pub proof fn lemma_roots_keep_covering(before: WatchRootSet, after: WatchRootSet, path: Seq<char>)
    requires
        before@.subset_of(after@),
        before.covers(path),
    ensures
        after.covers(path),
{
    let root = choose|root: Seq<char>| #[trigger] before@.contains(root) && covered_by(root, path);
    assert(after@.contains(root) && covered_by(root, path));
}

/// Whether the watch detector stops after a round over both channels.
pub fn watch_round_done(watch_changes_done: bool, file_changes_done: bool) -> (done: bool)
    ensures
        done == (watch_changes_done || file_changes_done),
{
    watch_changes_done || file_changes_done
}

} // verus!
