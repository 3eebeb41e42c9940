use std::collections::HashMap;

use cheval::file_cache::{FileCache, FileCacheMode};
use cheval::file_cache_internal::{FileProbe, ReloadOutcome};
use cheval::watch_detector::{run_watch_wait_for_watch_changes, Received, WatchEvent, WatchRootSet};

/// A stand-in for the file system and the background workers: files with
/// modification times, the events a watcher would report, and the loops that
/// the loader and the detectors run.
struct World {
    files: HashMap<String, (Vec<u8>, u64)>,
    clock: u64,
    events: Vec<WatchEvent>,
    roots: WatchRootSet,
}

impl World {
    fn new() -> World {
        let mut world =
            World { files: HashMap::new(), clock: 0, events: Vec::new(), roots: WatchRootSet::new() };
        world.write("/test/test_text_01.txt", b"01");
        world.write("/test/test_text_02.txt", b"02");
        world.events.clear();
        world
    }

    fn write(&mut self, path: &str, content: &[u8]) {
        self.clock += 1;
        let created = !self.files.contains_key(path);
        self.files.insert(path.to_string(), (content.to_vec(), self.clock));
        if self.roots.is_covered(&path.to_string()) {
            if created {
                self.events.push(WatchEvent::Create(path.to_string()));
            } else {
                self.events.push(WatchEvent::NoticeWrite(path.to_string()));
                self.events.push(WatchEvent::Write(path.to_string()));
            }
        }
    }

    fn resolve(&self, base: &str, name: &str) -> Option<String> {
        let mut parts: Vec<&str> = base.split('/').filter(|p| !p.is_empty()).collect();
        for part in name.split('/') {
            match part {
                "" | "." => {},
                ".." => {
                    parts.pop();
                },
                p => parts.push(p),
            }
        }
        let path = format!("/{}", parts.join("/"));
        if self.files.contains_key(&path) {
            Some(path)
        } else {
            None
        }
    }

    fn probe(&self, fc: &FileCache, name: &str) -> FileProbe {
        let resolved = self.resolve(fc.base_path(), name);
        let canonical = FileCache::canonicalize(resolved.as_deref()).ok();
        let content = match &canonical {
            Some(path) if fc.needs_initial_read(path) => self.files.get(path).map(|f| f.0.clone()),
            _ => None,
        };
        FileProbe { canonical, content }
    }

    fn load(&self, fc: &mut FileCache, name: &str) -> (u32, Vec<u8>) {
        let probe = self.probe(fc, name);
        fc.load(probe).unwrap()
    }

    fn load_string(&self, fc: &mut FileCache, name: &str) -> (u32, String) {
        let probe = self.probe(fc, name);
        fc.load_string(probe).unwrap()
    }

    /// The loader works off its queue.
    fn run_loader(&self, fc: &mut FileCache) {
        while let Some(path) = fc.next_reload() {
            let file = self.files.get(&path);
            let outcome = fc.reload(&path, file.map(|f| f.0.clone()), file.map(|f| f.1));
            assert_ne!(ReloadOutcome::Unmodified, outcome);
        }
    }

    /// One tick of the poll detector, then the loader.
    fn poll(&self, fc: &mut FileCache) {
        let findings = fc
            .poll_snapshot()
            .into_iter()
            .map(|(path, stored)| {
                let live = self.files.get(&path).map(|f| f.1);
                (path, stored, live)
            })
            .collect();
        fc.run_poll(findings);
        self.run_loader(fc);
    }

    /// One round of the watch detector, then the loader.
    fn watch(&mut self, fc: &mut FileCache) {
        for change in fc.take_watch_changes() {
            let (done, _) = run_watch_wait_for_watch_changes(Received::Message(change), &mut self.roots);
            assert!(!done);
        }
        for event in self.events.drain(..) {
            assert!(!fc.run_watch_wait_for_file_changes(Received::Message(event)));
        }
        assert!(!fc.run_watch_wait_for_file_changes(Received::Empty));
        self.run_loader(fc);
    }

    /// Waits for the next update as a caller would, with the watch detector
    /// and the loader at work during the first sleep.
    fn wait_for_change_with_timeout(&mut self, fc: &mut FileCache, timeout_nanos: u128) {
        let mut wait = fc.wait_for_change_with_timeout(timeout_nanos);
        while let Some(_) = wait.next_sleep() {
            self.watch(fc);
            wait.observe(fc.entry_updates());
        }
        assert!(!wait.timed_out());
    }
}

#[test]
fn file_cache_can_load_file_with_block_on_initial_load_enabled() {
    let world = World::new();
    let mut fc = FileCache::new();
    fc.enable_block_on_initial_load();
    fc.set_base_path(&"/test".to_string());

    fc.run();

    let f = world.load_string(&mut fc, "test_text_01.txt");
    assert_eq!("01", f.1.to_string());
    assert_eq!(1, fc.cache_misses());

    let f = world.load_string(&mut fc, "test_text_02.txt");
    assert_eq!("02", f.1.to_string());
    assert_eq!(2, fc.cache_misses());

    let f = world.load_string(&mut fc, "test_text_01.txt");
    assert_eq!("01", f.1.to_string());
    assert_eq!(2, fc.cache_misses());
    assert_eq!(1, fc.cache_hits());
}

#[test]
fn file_cache_can_load_file_with_block_on_initial_load_disabled() {
    let world = World::new();
    let mut fc = FileCache::new();
    fc.disable_block_on_initial_load();
    fc.set_base_path(&"/test".to_string());

    fc.run();

    let f = world.load_string(&mut fc, "test_text_01.txt");
    assert_eq!("", f.1.to_string());
    assert_eq!(1, fc.cache_misses());

    world.run_loader(&mut fc);

    let f = world.load_string(&mut fc, "test_text_01.txt"); // cache hit
    assert_eq!("01", f.1.to_string());
    assert_eq!(1, fc.cache_misses());
    assert_eq!(1, fc.cache_hits());

    let f = world.load_string(&mut fc, "test_text_02.txt");
    assert_eq!("", f.1.to_string());
    assert_eq!(2, fc.cache_misses());

    world.run_loader(&mut fc);

    let f = world.load_string(&mut fc, "test_text_02.txt"); // cache hit
    assert_eq!("02", f.1.to_string());
    assert_eq!(2, fc.cache_misses());
    assert_eq!(2, fc.cache_hits());

    let f = world.load_string(&mut fc, "test_text_01.txt"); // cache hit
    assert_eq!("01", f.1.to_string());
    assert_eq!(2, fc.cache_misses());
    assert_eq!(3, fc.cache_hits());
}

#[test]
fn file_cache_can_load_file_in_poll_mode_with_block_on_initial_load_enabled() {
    let world = World::new();
    let mut fc = FileCache::new();
    fc.set_mode(FileCacheMode::Poll);
    fc.enable_block_on_initial_load();
    fc.set_base_path(&"/test".to_string());

    fc.run();

    let f = world.load_string(&mut fc, "test_text_01.txt");
    assert_eq!("01", f.1.to_string());
    assert_eq!(1, fc.cache_misses());

    let f = world.load_string(&mut fc, "test_text_02.txt");
    assert_eq!("02", f.1.to_string());
    assert_eq!(2, fc.cache_misses());

    let f = world.load_string(&mut fc, "test_text_01.txt");
    assert_eq!("01", f.1.to_string());
    assert_eq!(2, fc.cache_misses());
    assert_eq!(1, fc.cache_hits());
}

#[test]
fn file_cache_can_load_file_in_poll_mode_with_block_on_initial_load_disabled() {
    let world = World::new();
    let mut fc = FileCache::new();
    fc.set_mode(FileCacheMode::Poll);
    fc.disable_block_on_initial_load();
    fc.set_base_path(&"/test".to_string());

    fc.run();

    let f = world.load_string(&mut fc, "test_text_01.txt");
    assert_eq!("", f.1.to_string());
    assert_eq!(1, fc.cache_misses());

    world.poll(&mut fc);

    let f = world.load_string(&mut fc, "test_text_01.txt"); // cache hit
    assert_eq!("01", f.1.to_string());
    assert_eq!(1, fc.cache_misses());
    assert_eq!(1, fc.cache_hits());

    let f = world.load_string(&mut fc, "test_text_02.txt");
    assert_eq!("", f.1.to_string());
    assert_eq!(2, fc.cache_misses());

    world.poll(&mut fc);

    let f = world.load_string(&mut fc, "test_text_02.txt"); // cache hit
    assert_eq!("02", f.1.to_string());
    assert_eq!(2, fc.cache_misses());
    assert_eq!(2, fc.cache_hits());

    let f = world.load_string(&mut fc, "test_text_01.txt"); // cache hit
    assert_eq!("01", f.1.to_string());
    assert_eq!(2, fc.cache_misses());
    assert_eq!(3, fc.cache_hits());
}

#[test]
fn file_cache_can_load_and_update_file_in_poll_mode_with_block_on_initial_load_disabled() {
    let mut world = World::new();
    let mut fc = FileCache::new();
    fc.set_mode(FileCacheMode::Poll);
    fc.disable_block_on_initial_load();
    fc.set_base_path(&"/test".to_string());

    fc.run();

    let test_file = "auto_test_poll.txt";
    let test_file_with_dir = "/test/auto_test_poll.txt";
    world.write(test_file_with_dir, b"01");

    world.poll(&mut fc);

    let f = world.load_string(&mut fc, test_file);
    assert_eq!("", f.1.to_string());
    assert_eq!(1, fc.entry_updates());

    world.poll(&mut fc);

    let f = world.load_string(&mut fc, test_file); // cache hit
    assert_eq!("01", f.1.to_string());
    assert_eq!(2, fc.entry_updates());

    world.write(test_file_with_dir, b"02");

    world.poll(&mut fc);

    let f = world.load_string(&mut fc, test_file); // cache hit
    assert_eq!("02", f.1.to_string());
    assert_eq!(3, fc.entry_updates());

    world.poll(&mut fc);

    assert_eq!(3, fc.entry_updates());
}

#[test]
fn file_cache_can_load_and_update_file_in_watch_mode_with_block_on_initial_load_disabled() {
    let mut world = World::new();
    let mut fc = FileCache::new();
    fc.set_mode(FileCacheMode::Watch);
    fc.disable_block_on_initial_load();
    fc.set_base_path(&"/test".to_string());

    fc.run();

    let test_file = "auto_test_watch.txt";
    let test_file_with_dir = "/test/auto_test_watch.txt";
    world.write(test_file_with_dir, b"01");

    let f = world.load_string(&mut fc, test_file);
    assert_eq!("", f.1.to_string());
    assert_eq!(1, fc.entry_updates());

    world.wait_for_change_with_timeout(&mut fc, 60000 * 1_000_000);

    let f = world.load_string(&mut fc, test_file); // cache hit
    assert_eq!("01", f.1.to_string());
    assert_eq!(2, fc.entry_updates());

    world.write(test_file_with_dir, b"02");

    world.wait_for_change_with_timeout(&mut fc, 60000 * 1_000_000);

    let f = world.load_string(&mut fc, test_file); // cache hit
    assert_eq!("02", f.1.to_string());
    assert_eq!(3, fc.entry_updates());
}

#[test]
fn file_cache_can_update_vector_clock_in_watch_mode_with_block_on_initial_load_disabled() {
    let mut world = World::new();
    let mut fc = FileCache::new();
    fc.set_mode(FileCacheMode::Watch);
    fc.disable_block_on_initial_load();
    fc.set_base_path(&"/test".to_string());

    fc.run();

    let test_file = "auto_test_vector_watch.txt";
    let test_file_with_dir = "/test/auto_test_vector_watch.txt";
    world.write(test_file_with_dir, b"01");

    let f = world.load_string(&mut fc, test_file);
    assert_eq!("", f.1.to_string());
    assert_eq!(0, f.0);
    assert_eq!(1, fc.entry_updates());

    world.wait_for_change_with_timeout(&mut fc, 60000 * 1_000_000);

    let f = world.load_string(&mut fc, test_file); // cache hit
    assert_eq!("01", f.1.to_string());
    assert_eq!(1, f.0);
    assert_eq!(2, fc.entry_updates());

    world.write(test_file_with_dir, b"02");

    world.wait_for_change_with_timeout(&mut fc, 60000 * 1_000_000);

    let f = world.load_string(&mut fc, test_file); // cache hit
    assert_eq!("02", f.1.to_string());
    assert_eq!(2, f.0);
    assert_eq!(3, fc.entry_updates());
}

#[test]
fn file_cache_can_update_vector_clock_for_binary_file_in_watch_mode_with_block_on_initial_load_disabled() {
    let mut world = World::new();
    let mut fc = FileCache::new();
    fc.set_mode(FileCacheMode::Watch);
    fc.disable_block_on_initial_load();
    fc.set_base_path(&"/test".to_string());

    fc.run();

    let test_file = "auto_test_vector_binary_watch.txt";
    let test_file_with_dir = "/test/auto_test_vector_binary_watch.txt";
    world.write(test_file_with_dir, b"01");

    let f = world.load(&mut fc, test_file);
    assert_eq!(b"", f.1.as_slice());
    assert_eq!(0, f.0);
    assert_eq!(1, fc.entry_updates());

    world.wait_for_change_with_timeout(&mut fc, 60000 * 1_000_000);

    let f = world.load(&mut fc, test_file); // cache hit
    assert_eq!(b"01", f.1.as_slice());
    assert_eq!(1, f.0);
    assert_eq!(2, fc.entry_updates());

    world.write(test_file_with_dir, b"02");

    world.wait_for_change_with_timeout(&mut fc, 60000 * 1_000_000);

    let f = world.load(&mut fc, test_file); // cache hit
    assert_eq!(b"02", f.1.as_slice());
    assert_eq!(2, f.0);
    assert_eq!(3, fc.entry_updates());
}

#[test]
fn file_cache_can_update_vector_clock_for_binary_file_out_of_tree_in_watch_mode_with_block_on_initial_load_disabled() {
    let mut world = World::new();
    let mut fc = FileCache::new();
    fc.set_mode(FileCacheMode::Watch);
    fc.disable_block_on_initial_load();
    fc.set_base_path(&"/test/aaa".to_string());

    fc.run();

    {
        let test_file = "auto_test_vector_binary_watch.txt";
        let test_file_with_dir = "/test/aaa/auto_test_vector_binary_watch.txt";
        world.write(test_file_with_dir, b"01");

        let f = world.load(&mut fc, test_file);
        assert_eq!(b"", f.1.as_slice());
        assert_eq!(0, f.0);
        assert_eq!(1, fc.entry_updates());

        world.wait_for_change_with_timeout(&mut fc, 60000 * 1_000_000);

        let f = world.load(&mut fc, test_file); // cache hit
        assert_eq!(b"01", f.1.as_slice());
        assert_eq!(1, f.0);
        assert_eq!(2, fc.entry_updates());

        world.write(test_file_with_dir, b"02");

        world.wait_for_change_with_timeout(&mut fc, 60000 * 1_000_000);

        let f = world.load(&mut fc, test_file); // cache hit
        assert_eq!(b"02", f.1.as_slice());
        assert_eq!(2, f.0);
        assert_eq!(3, fc.entry_updates());
    }

    {
        let test_file = "../bbb/auto_test_vector_binary_watch.txt";
        let test_file_with_dir = "/test/bbb/auto_test_vector_binary_watch.txt";
        world.write(test_file_with_dir, b"01");

        let f = world.load(&mut fc, test_file);
        assert_eq!(b"", f.1.as_slice());
        assert_eq!(0, f.0);
        assert_eq!(4, fc.entry_updates());

        world.wait_for_change_with_timeout(&mut fc, 60000 * 1_000_000);

        let f = world.load(&mut fc, test_file); // cache hit
        assert_eq!(b"01", f.1.as_slice());
        assert_eq!(1, f.0);
        assert_eq!(5, fc.entry_updates());

        world.write(test_file_with_dir, b"02");

        world.wait_for_change_with_timeout(&mut fc, 60000 * 1_000_000);

        let f = world.load(&mut fc, test_file); // cache hit
        assert_eq!(b"02", f.1.as_slice());
        assert_eq!(2, f.0);
        assert_eq!(6, fc.entry_updates());
    }

    assert!(world.roots.contains(&"/test/aaa".to_string()));
    assert!(world.roots.contains(&"/test/bbb".to_string()));
    assert_eq!(2, world.roots.len());
}
