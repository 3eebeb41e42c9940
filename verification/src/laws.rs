//! What holds of the cache over sequences of operations.

use vstd::prelude::*;
use crate::cache_entry::{empty_entry, EntryModel};
use crate::cache_model::{CacheModel, FileCacheError, ProbeModel};

verus! {

/// One observed write to a file: the bytes found and the modification time
/// found with them.
pub struct WriteModel {
    pub content: Seq<u8>,
    pub modified: Option<u64>,
}

/// The state after the loader has reloaded `path` once for each write, in
/// order.
pub open spec fn after_reloads(m: CacheModel, path: Seq<char>, writes: Seq<WriteModel>) -> CacheModel
    decreases writes.len(),
{
    if writes.len() == 0 {
        m
    } else {
        after_reloads(m, path, writes.drop_last()).after_reload(
            path,
            Some(writes.last().content),
            writes.last().modified,
        )
    }
}

/// Each write was found with a modification time other than the one before
/// it, the first with one other than `stored`.
pub open spec fn times_change(stored: Option<u64>, writes: Seq<WriteModel>) -> bool {
    forall|i: int|
        0 <= i < writes.len() ==> (#[trigger] writes[i]).modified != (if i == 0 {
            stored
        } else {
            writes[i - 1].modified
        })
}

/// A request for `path` whose bytes were not read.
pub open spec fn request(path: Seq<char>) -> ProbeModel {
    ProbeModel { canonical: Some(path), content: None }
}

/// Versions never go back: a state precedes itself, and preceding carries
/// over chains of states.
pub proof fn lemma_precedes_is_preorder(a: CacheModel, b: CacheModel, c: CacheModel)
    ensures
        a.precedes(a),
        a.precedes(b) && b.precedes(c) ==> a.precedes(c),
{
    if a.precedes(b) && b.precedes(c) {
        assert forall|p: Seq<char>| #[trigger] a.cache.contains_key(p) implies c.cache.contains_key(p)
            && a.cache[p].version <= c.cache[p].version by {
            assert(b.cache.contains_key(p));
        }
    }
}

/// No operation removes a cached path or lowers its version: whatever a
/// reader saw for a path, a later reader sees the same version or a higher
/// one.
pub proof fn lemma_operations_keep_versions(
    m: CacheModel,
    path: Seq<char>,
    probe: ProbeModel,
    entry: EntryModel,
    read: Option<Seq<u8>>,
    stored: Option<u64>,
    live: Option<u64>,
)
    ensures
        m.precedes(m.after_load(probe)),
        m.precedes(m.after_update_entry(path, entry)),
        m.precedes(m.after_reload(path, read, live)),
        m.precedes(m.after_poll(path, stored, live)),
        m.precedes(m.after_file_change(path)),
        m.precedes(m.after_enqueue(path)),
        m.precedes(m.after_watch_request(path)),
{
}

/// A successful reload raises the version of a cached path by exactly one
/// and stores what was read.
pub proof fn lemma_reload_bumps_version(
    m: CacheModel,
    path: Seq<char>,
    bytes: Seq<u8>,
    modified: Option<u64>,
)
    requires
        m.cache.contains_key(path),
        m.cache[path].modification_time != modified,
    ensures
        m.after_reload(path, Some(bytes), modified).cache[path] == (EntryModel {
            version: m.cache[path].version + 1,
            content: bytes,
            modification_time: modified,
        }),
        m.after_reload(path, Some(bytes), modified).entry_updates == m.entry_updates + 1,
{
}

/// Monotonic version. After a cached path has been reloaded for a sequence
/// of writes, each found with a new modification time, a request for it is
/// answered with the last write under a version that has grown by the
/// number of writes. Applied to each prefix of the writes, this says that
/// the versions a reader can observe rise by one with every write and that
/// each comes with the content of that write.
pub proof fn lemma_versions_count_writes(m: CacheModel, path: Seq<char>, writes: Seq<WriteModel>)
    requires
        m.cache.contains_key(path),
        times_change(m.cache[path].modification_time, writes),
    ensures
        after_reloads(m, path, writes).cache.contains_key(path),
        after_reloads(m, path, writes).cache[path].version == m.cache[path].version + writes.len(),
        writes.len() > 0 ==> after_reloads(m, path, writes).cache[path].content
            == writes.last().content && after_reloads(m, path, writes).cache[path].modification_time
            == writes.last().modified,
        after_reloads(m, path, writes).entry_updates == m.entry_updates + writes.len(),
        writes.len() > 0 ==> after_reloads(m, path, writes).load_result(request(path)) == Ok::<
            (nat, Seq<u8>),
            FileCacheError,
        >((m.cache[path].version + writes.len(), writes.last().content)),
        m.precedes(after_reloads(m, path, writes)),
    decreases writes.len(),
{
    if writes.len() > 0 {
        let earlier = writes.drop_last();
        assert(times_change(m.cache[path].modification_time, earlier)) by {
            assert forall|i: int| 0 <= i < earlier.len() implies (#[trigger] earlier[i]).modified != (
            if i == 0 {
                m.cache[path].modification_time
            } else {
                earlier[i - 1].modified
            }) by {
                assert(earlier[i] == writes[i]);
                if i > 0 {
                    assert(earlier[i - 1] == writes[i - 1]);
                }
            }
        }
        lemma_versions_count_writes(m, path, earlier);
        let before = after_reloads(m, path, earlier);
        let last = writes.last();
        let k = writes.len() - 1;
        assert(writes[k] == last);
        if k > 0 {
            assert(earlier.last() == writes[k - 1]);
        }
        assert(before.cache[path].modification_time != last.modified);
        lemma_reload_bumps_version(before, path, last.content, last.modified);
        lemma_precedes_is_preorder(m, before, after_reloads(m, path, writes));
    }
}

/// Hit/miss accounting, part one: every request whose name could be
/// resolved is counted once, as a hit if the path is cached and as a miss if
/// it is not; one that could not be resolved is not counted.
pub proof fn lemma_request_counted_once(m: CacheModel, probe: ProbeModel)
    ensures
        probe.canonical is None ==> m.after_load(probe) == m,
        probe.canonical matches Some(path) && m.cache.contains_key(path) ==> {
            &&& m.after_load(probe).cache_hits == m.cache_hits + 1
            &&& m.after_load(probe).cache_misses == m.cache_misses
        },
        probe.canonical matches Some(path) && !m.cache.contains_key(path) ==> {
            &&& m.after_load(probe).cache_hits == m.cache_hits
            &&& m.after_load(probe).cache_misses == m.cache_misses + 1
        },
        probe.canonical is Some ==> m.after_load(probe).cache_hits + m.after_load(
            probe,
        ).cache_misses == m.cache_hits + m.cache_misses + 1,
{
}

/// Hit/miss accounting, part two: once a request for a new path has been
/// answered, every later request for that path is a hit, whatever happened
/// to the cache in between. (A first request that fails, because the first
/// load blocks and the file cannot be read, caches nothing and is left out.)
pub proof fn lemma_first_request_misses_later_hit(
    m: CacheModel,
    first: ProbeModel,
    later_state: CacheModel,
    later: ProbeModel,
)
    requires
        first.canonical matches Some(path) && !m.cache.contains_key(path),
        m.load_result(first) is Ok,
        m.after_load(first).precedes(later_state),
        later.canonical == first.canonical,
    ensures
        m.after_load(first).cache_misses == m.cache_misses + 1,
        m.after_load(first).cache_hits == m.cache_hits,
        later_state.after_load(later).cache_hits == later_state.cache_hits + 1,
        later_state.after_load(later).cache_misses == later_state.cache_misses,
        later_state.load_result(later) is Ok,
{
    let path = first.canonical->0;
    assert(m.after_load(first).cache.contains_key(path));
}

/// Deletion policy. Once the file behind a cached path is gone, the poll
/// detector finds no time for it and the loader cannot read it; neither
/// changes the cache, and requests keep being answered with the last known
/// version and content.
pub proof fn lemma_deleted_file_keeps_entry(
    m: CacheModel,
    path: Seq<char>,
    stored: Option<u64>,
    modified: Option<u64>,
    probe: ProbeModel,
)
    requires
        m.cache.contains_key(path),
        probe.canonical == Some(path),
    ensures
        m.after_poll(path, stored, None) == m,
        m.after_reload(path, None, modified) == m,
        m.load_result(probe) == Ok::<(nat, Seq<u8>), FileCacheError>(
            (m.cache[path].version, m.cache[path].content),
        ),
        m.after_load(probe).cache == m.cache,
        m.after_load(probe).load_result(probe) == m.load_result(probe),
{
}

/// Round trip when the first load does not block. A request for a new path
/// is answered with version 0 and no content, and queues the path; after the
/// loader has read the file, the next request is answered with version 1 and
/// the content of the file.
pub proof fn lemma_round_trip_without_blocking(
    m: CacheModel,
    probe: ProbeModel,
    bytes: Seq<u8>,
    modified: u64,
)
    requires
        !m.block_on_initial_load,
        probe.canonical matches Some(path) && !m.cache.contains_key(path),
    ensures
        m.load_result(probe) == Ok::<(nat, Seq<u8>), FileCacheError>((0, Seq::empty())),
        m.after_load(probe).loading_queue == m.loading_queue.push(probe.canonical->0),
        m.after_load(probe).cache[probe.canonical->0] == empty_entry(),
        m.after_load(probe).after_reload(probe.canonical->0, Some(bytes), Some(modified)).load_result(
            probe,
        ) == Ok::<(nat, Seq<u8>), FileCacheError>((1, bytes)),
{
}

/// Round trip when the first load blocks. A request for a new path whose
/// file could be read is answered at once with version 0 and the content of
/// the file, and counts one miss; the path is not queued.
pub proof fn lemma_round_trip_with_blocking(m: CacheModel, probe: ProbeModel)
    requires
        m.block_on_initial_load,
        probe.canonical matches Some(path) && !m.cache.contains_key(path),
        probe.content is Some,
    ensures
        m.load_result(probe) == Ok::<(nat, Seq<u8>), FileCacheError>((0, probe.content->0)),
        m.after_load(probe).cache_misses == m.cache_misses + 1,
        m.after_load(probe).cache_hits == m.cache_hits,
        m.after_load(probe).loading_queue == m.loading_queue,
        m.after_load(probe).load_result(probe) == m.load_result(probe),
{
}

/// Every operation keeps the stored versions below the number of updates.
pub proof fn lemma_operations_keep_versions_counted(
    m: CacheModel,
    path: Seq<char>,
    probe: ProbeModel,
    entry: EntryModel,
    read: Option<Seq<u8>>,
    stored: Option<u64>,
    live: Option<u64>,
)
    requires
        m.versions_counted(),
    ensures
        CacheModel::initial().versions_counted(),
        m.after_load(probe).versions_counted(),
        m.after_update_entry(path, entry).versions_counted(),
        m.after_reload(path, read, live).versions_counted(),
        m.after_poll(path, stored, live).versions_counted(),
        m.after_file_change(path).versions_counted(),
{
    assert forall|p: Seq<char>| #[trigger]
        m.after_update_entry(path, entry).cache.contains_key(p) implies m.after_update_entry(
        path,
        entry,
    ).cache[p].version < m.after_update_entry(path, entry).entry_updates by {
        if p != path {
            assert(m.cache.contains_key(p));
        }
    }
}

} // verus!
