//! The store over two tiers that are kept in memory: warm reads, write-through, deletions, sweeps,
//! read recency and the backstop.

use anyhow::Result;
use capsule_workspace_core::cache::{evict_to_limit, CachedBlobStore};
use capsule_workspace_core::error::StoreError;
use capsule_workspace_core::listing::{cache_size, CacheListing, DirEntry, Kind, Metadata};
use capsule_workspace_core::operation::{Action, Event, Progress};
use std::collections::BTreeMap;

type Key = (&'static str, String);

fn dir(kind: Kind) -> &'static str {
    match kind {
        Kind::Block => "blocks",
        Kind::Manifest => "manifests",
    }
}

const SECOND: i128 = 1_000_000_000;

struct World {
    store: CachedBlobStore,
    backing: BTreeMap<Key, Vec<u8>>,
    cache: BTreeMap<Key, (Vec<u8>, i128)>,
    now: i128,
    log: Vec<&'static str>,
    backing_broken: bool,
    cache_reads_broken: bool,
    cache_writes_broken: bool,
}

fn broken() -> anyhow::Error {
    anyhow::Error::new(StoreError::Failed("device unreachable".to_string()))
}

fn missing(key: &str) -> anyhow::Error {
    anyhow::Error::new(StoreError::NotFound(key.to_string()))
}

fn listing_of(cache: &BTreeMap<Key, (Vec<u8>, i128)>) -> (CacheListing, Vec<Key>, Vec<Key>) {
    let mut listing = CacheListing { blocks: Vec::new(), manifests: Vec::new() };
    let (mut blocks, mut manifests) = (Vec::new(), Vec::new());
    for (key, (bytes, modified)) in cache {
        let entry = DirEntry {
            name: key.1.clone(),
            metadata: Some(Metadata {
                is_file: true,
                len: bytes.len() as u64,
                modified: Some(*modified),
            }),
        };
        if key.0 == "blocks" {
            listing.blocks.push(entry);
            blocks.push(key.clone());
        } else {
            listing.manifests.push(entry);
            manifests.push(key.clone());
        }
    }
    (listing, blocks, manifests)
}

fn evict(cache: &mut BTreeMap<Key, (Vec<u8>, i128)>, max_bytes: u64) {
    let (listing, blocks, manifests) = listing_of(cache);
    let mut sweep = evict_to_limit(&listing, max_bytes);
    while let Some(file) = sweep.next_victim() {
        let key = match file.kind {
            Kind::Block => &blocks[file.slot],
            Kind::Manifest => &manifests[file.slot],
        };
        let gone = cache.remove(key).is_some();
        sweep.attempted(gone);
    }
}

impl World {
    fn new(store: CachedBlobStore) -> World {
        World {
            store,
            backing: BTreeMap::new(),
            cache: BTreeMap::new(),
            now: 1_700_000_000 * SECOND,
            log: Vec::new(),
            backing_broken: false,
            cache_reads_broken: false,
            cache_writes_broken: false,
        }
    }

    fn perform(&mut self, action: Action<&str, &[u8]>) -> Event<Vec<u8>> {
        self.now += 1;
        match action {
            Action::PutBacking { kind, key, bytes } => {
                self.log.push("put backing");
                if self.backing_broken {
                    return Event::Wrote(Err(broken()));
                }
                self.backing.insert((dir(kind), key.to_string()), bytes.to_vec());
                Event::Wrote(Ok(()))
            }
            Action::GetBacking { kind, key } => {
                self.log.push("get backing");
                if self.backing_broken {
                    return Event::Read(Err(broken()));
                }
                let found = self.backing.get(&(dir(kind), key.to_string()));
                Event::Read(found.cloned().ok_or_else(|| missing(key)))
            }
            Action::DeleteBacking { kind, key } => {
                self.log.push("delete backing");
                if self.backing_broken {
                    return Event::Deleted(Err(broken()));
                }
                Event::Deleted(Ok(self.backing.remove(&(dir(kind), key.to_string())).is_some()))
            }
            Action::HasBacking { kind, key } => {
                self.log.push("has backing");
                Event::Present(self.backing.contains_key(&(dir(kind), key.to_string())))
            }
            Action::PutCache { kind, key, bytes } => {
                self.log.push("put cache");
                if self.cache_writes_broken {
                    return Event::Wrote(Err(broken()));
                }
                self.cache.insert((dir(kind), key.to_string()), (bytes.to_vec(), self.now));
                Event::Wrote(Ok(()))
            }
            Action::GetCache { kind, key } => {
                self.log.push("get cache");
                if self.cache_reads_broken {
                    return Event::Read(Err(broken()));
                }
                let found = self.cache.get(&(dir(kind), key.to_string()));
                Event::Read(found.map(|(b, _)| b.clone()).ok_or_else(|| missing(key)))
            }
            Action::TouchCache { kind, key } => {
                self.log.push("touch cache");
                if self.cache_writes_broken {
                    return Event::Touched(Err(broken()));
                }
                if let Some(entry) = self.cache.get_mut(&(dir(kind), key.to_string())) {
                    entry.1 = self.now;
                }
                Event::Touched(Ok(()))
            }
            Action::DeleteCache { kind, key } => {
                self.log.push("delete cache");
                if self.cache_writes_broken {
                    return Event::Deleted(Err(broken()));
                }
                Event::Deleted(Ok(self.cache.remove(&(dir(kind), key.to_string())).is_some()))
            }
            Action::HasCache { kind, key } => {
                self.log.push("has cache");
                Event::Present(self.cache.contains_key(&(dir(kind), key.to_string())))
            }
            Action::MeasureCache => {
                self.log.push("measure");
                Event::Measured(cache_size(&listing_of(&self.cache).0))
            }
            Action::SweepCache { max_bytes } => {
                self.log.push("sweep");
                evict(&mut self.cache, max_bytes);
                Event::Swept
            }
        }
    }

    fn put(&mut self, kind: Kind, key: &str, bytes: &[u8]) -> Result<()> {
        let mut op = match kind {
            Kind::Block => self.store.put_block(key, bytes),
            Kind::Manifest => self.store.put_manifest(key, bytes),
        };
        loop {
            let event = self.perform(op.action());
            match op.resume(&mut self.store, event) {
                Progress::Pending(next) => op = next,
                Progress::Finished(result) => return result,
            }
        }
    }

    fn get(&mut self, kind: Kind, key: &str) -> Result<Vec<u8>> {
        let mut op = match kind {
            Kind::Block => self.store.get_block(key),
            Kind::Manifest => self.store.get_manifest(key),
        };
        loop {
            let event = self.perform(op.action());
            match op.resume(&mut self.store, event) {
                Progress::Pending(next) => op = next,
                Progress::Finished(result) => return result,
            }
        }
    }

    fn delete(&mut self, kind: Kind, key: &str) -> Result<bool> {
        let mut op = match kind {
            Kind::Block => self.store.delete_block(key),
            Kind::Manifest => self.store.delete_manifest(key),
        };
        loop {
            let event = self.perform(op.action());
            match op.resume(event) {
                Progress::Pending(next) => op = next,
                Progress::Finished(result) => return result,
            }
        }
    }

    fn has_block(&mut self, key: &str) -> bool {
        let mut op = self.store.has_block(key);
        loop {
            let event = self.perform(op.action());
            match op.resume(event) {
                Progress::Pending(next) => op = next,
                Progress::Finished(result) => return result,
            }
        }
    }

    fn put_block(&mut self, key: &str, bytes: &[u8]) -> Result<()> {
        self.put(Kind::Block, key, bytes)
    }

    fn get_block(&mut self, key: &str) -> Result<Vec<u8>> {
        self.get(Kind::Block, key)
    }

    fn cached(&self, key: &str) -> bool {
        self.cache.contains_key(&("blocks", key.to_string()))
    }

    fn durable(&self, key: &str) -> bool {
        self.backing.contains_key(&("blocks", key.to_string()))
    }

    fn used(&self) -> u64 {
        self.cache.values().map(|(bytes, _)| bytes.len() as u64).sum()
    }

    fn set_mtime_secs_ago(&mut self, key: &str, secs: i128) {
        let now = self.now;
        self.cache.get_mut(&("blocks", key.to_string())).unwrap().1 = now - secs * SECOND;
    }
}

#[test]
fn write_through_and_delete_hit_both_tiers() {
    let mut w = World::new(CachedBlobStore::new());
    let id = "b".repeat(64);
    w.put_block(&id, &vec![1u8; 1000]).unwrap();
    assert!(w.durable(&id), "durable in backing");
    assert!(w.cached(&id), "populated in cache");

    assert!(w.delete(Kind::Block, &id).unwrap());
    assert!(!w.durable(&id));
    assert!(!w.cached(&id));
}

#[test]
fn bounded_cache_evicts_and_stays_correct() {
    const LIMIT: u64 = 4 * 1024 * 1024;
    let mut w = World::new(CachedBlobStore::with_limit(Some(LIMIT)));

    let mut ids = Vec::new();
    for i in 0..40u32 {
        let id = format!("{:064x}", i);
        let bytes = vec![i as u8; 256 * 1024];
        w.put_block(&id, &bytes).unwrap();
        ids.push((id, bytes));
    }
    for i in 0..40u32 {
        w.put(Kind::Manifest, &format!("{:064x}", 1000 + i), &vec![i as u8; 128 * 1024]).unwrap();
    }

    let used = w.used();
    assert!(used <= LIMIT, "cache must stay under its ceiling: {used} > {LIMIT}");
    assert!(used > 0, "and must not have evicted everything");

    for (id, want) in &ids {
        assert_eq!(&w.get_block(id).unwrap(), want, "block {id} lost");
    }
}

#[test]
fn a_pod_store_never_sweeps() {
    let mut w = World::new(CachedBlobStore::for_pod(None));
    for i in 0..40u32 {
        w.put_block(&format!("{:064x}", i), &vec![i as u8; 256 * 1024]).unwrap();
    }
    let n = w.cache.keys().filter(|(dir, name)| *dir == "blocks" && !name.ends_with(".tmp")).count();
    assert_eq!(n, 40, "a pod store must not evict: the agent is the sole sweeper");
    assert!(!w.log.contains(&"sweep"));
}

#[test]
fn evict_to_limit_holds_the_ceiling() {
    let mut cache = BTreeMap::new();
    for i in 0..40u32 {
        let key = ("blocks", format!("{:064x}", i));
        cache.insert(key, (vec![i as u8; 256 * 1024], i as i128));
    }
    const LIMIT: u64 = 4 * 1024 * 1024;
    evict(&mut cache, LIMIT);
    let used: u64 = cache.values().map(|(bytes, _)| bytes.len() as u64).sum();
    assert!(used <= LIMIT, "agent eviction must hold the ceiling: {used} > {LIMIT}");
    assert!(used > 0, "must not evict everything");
}

#[test]
fn a_read_saves_a_block_from_eviction_read_recency() {
    let (a, b) = ("a".repeat(64), "b".repeat(64));
    let big = 256 * 1024usize;

    {
        let mut w = World::new(CachedBlobStore::for_pod(None));
        w.put_block(&a, &vec![1u8; big]).unwrap();
        w.put_block(&b, &vec![2u8; big]).unwrap();
        w.set_mtime_secs_ago(&a, 200);
        w.set_mtime_secs_ago(&b, 100);
        assert_eq!(w.get_block(&a).unwrap(), vec![1u8; big]);
        evict(&mut w.cache, (big as u64) + (big as u64) / 4);
        assert!(w.cached(&a), "the READ block must survive eviction");
        assert!(!w.cached(&b), "the un-read block must be evicted");
    }

    {
        let mut w = World::new(CachedBlobStore::for_pod(None));
        w.put_block(&a, &vec![1u8; big]).unwrap();
        w.put_block(&b, &vec![2u8; big]).unwrap();
        w.set_mtime_secs_ago(&a, 200);
        w.set_mtime_secs_ago(&b, 100);
        evict(&mut w.cache, (big as u64) + (big as u64) / 4);
        assert!(!w.cached(&a), "without a read, the older block is evicted");
        assert!(w.cached(&b));
    }
}

#[test]
fn the_pod_backstop_caps_cache_growth() {
    const CAP: u64 = 2 * 1024 * 1024;
    let mut w = World::new(CachedBlobStore::for_pod(Some(CAP)));
    let mut ids = Vec::new();
    for i in 0..40u32 {
        let id = format!("{:064x}", i);
        w.put_block(&id, &vec![i as u8; 256 * 1024]).unwrap();
        ids.push((id, i as u8));
    }
    let used = w.used();
    assert!(used < 2 * CAP, "backstop must bound cache growth near the cap: {used} vs cap {CAP}");
    assert!(!w.log.contains(&"sweep"));
    for (id, byte) in &ids {
        assert_eq!(w.get_block(id).unwrap(), vec![*byte; 256 * 1024], "block {id} must stay durable");
    }
}

#[test]
fn warm_reads_skip_the_backing_store() {
    let mut w = World::new(CachedBlobStore::new());
    w.backing.insert(("blocks", "x".to_string()), vec![3u8; 300_000]);

    assert_eq!(w.get_block("x").unwrap(), vec![3u8; 300_000]);
    assert_eq!(w.log, vec!["get cache", "get backing", "put cache"]);

    w.log.clear();
    assert_eq!(w.get_block("x").unwrap(), vec![3u8; 300_000]);
    assert_eq!(w.log, vec!["get cache", "touch cache"]);
}

#[test]
fn a_write_goes_to_the_backing_store_first() {
    let mut w = World::new(CachedBlobStore::new());
    w.put_block("x", b"abc").unwrap();
    assert_eq!(w.log, vec!["put backing", "put cache"]);
    assert_eq!(w.backing[&("blocks", "x".to_string())], b"abc");
    assert_eq!(w.cache[&("blocks", "x".to_string())].0, b"abc");
}

#[test]
fn a_refused_write_leaves_the_cache_alone() {
    let mut w = World::new(CachedBlobStore::new());
    w.backing_broken = true;
    let e = w.put_block("x", b"abc").unwrap_err();
    assert_eq!(e.to_string(), "device unreachable");
    assert_eq!(w.log, vec!["put backing"]);
    assert!(w.cache.is_empty());
}

#[test]
fn a_failing_cache_fails_neither_writes_nor_hits_nor_deletions() {
    let mut w = World::new(CachedBlobStore::new());
    w.put_block("x", b"abc").unwrap();
    w.cache_writes_broken = true;
    w.put_block("y", b"def").unwrap();
    assert!(!w.cached("y"));
    assert_eq!(w.get_block("x").unwrap(), b"abc");
    assert_eq!(w.get_block("y").unwrap(), b"def");
    assert!(w.delete(Kind::Block, "x").unwrap());
    assert!(!w.durable("x"));
}

#[test]
fn a_cache_that_cannot_be_read_fails_the_read() {
    let mut w = World::new(CachedBlobStore::new());
    w.put_block("x", b"abc").unwrap();
    w.log.clear();
    w.cache_reads_broken = true;
    assert_eq!(w.get_block("x").unwrap_err().to_string(), "device unreachable");
    assert_eq!(w.log, vec!["get cache"]);
}

#[test]
fn a_blob_in_neither_tier_is_not_found() {
    let mut w = World::new(CachedBlobStore::new());
    let e = w.get_block("x").unwrap_err();
    assert!(capsule_workspace_core::error::is_not_found(&e));
    assert_eq!(e.to_string(), "not found: x");
    assert_eq!(w.log, vec!["get cache", "get backing"]);
}

#[test]
fn a_failing_backing_store_fails_a_miss() {
    let mut w = World::new(CachedBlobStore::new());
    w.backing_broken = true;
    let e = w.get_block("x").unwrap_err();
    assert!(!capsule_workspace_core::error::is_not_found(&e));
    assert_eq!(w.log, vec!["get cache", "get backing"]);
}

#[test]
fn a_stale_cache_entry_is_still_served() {
    let mut w = World::new(CachedBlobStore::new());
    w.put_block("x", b"abc").unwrap();
    w.backing.clear();
    assert_eq!(w.get_block("x").unwrap(), b"abc");
}

#[test]
fn blocks_and_manifests_do_not_mix() {
    let mut w = World::new(CachedBlobStore::new());
    w.put(Kind::Manifest, "x", b"abc").unwrap();
    assert_eq!(w.get(Kind::Manifest, "x").unwrap(), b"abc");
    assert!(w.get_block("x").is_err());
    assert!(!w.delete(Kind::Block, "x").unwrap());
    assert!(w.delete(Kind::Manifest, "x").unwrap());
    assert!(w.get(Kind::Manifest, "x").is_err());
}

#[test]
fn a_failed_deletion_leaves_the_cache_alone() {
    let mut w = World::new(CachedBlobStore::new());
    w.put_block("x", b"abc").unwrap();
    w.backing_broken = true;
    w.log.clear();
    assert!(w.delete(Kind::Block, "x").is_err());
    assert_eq!(w.log, vec!["delete backing"]);
    assert!(w.cached("x"));
}

#[test]
fn deleting_an_absent_block_says_so_and_clears_the_cache() {
    let mut w = World::new(CachedBlobStore::new());
    w.cache.insert(("blocks", "x".to_string()), (vec![1], 0));
    assert!(!w.delete(Kind::Block, "x").unwrap());
    assert!(!w.cached("x"));
}

#[test]
fn a_lookup_asks_the_cache_and_then_the_backing_store() {
    let mut w = World::new(CachedBlobStore::new());
    assert!(!w.has_block("x"));
    assert_eq!(w.log, vec!["has cache", "has backing"]);
    w.backing.insert(("blocks", "x".to_string()), vec![1]);
    assert!(w.has_block("x"));
    w.log.clear();
    w.cache.insert(("blocks", "x".to_string()), (vec![1], 0));
    assert!(w.has_block("x"));
    assert_eq!(w.log, vec!["has cache"]);
}

#[test]
fn a_reply_to_something_else_changes_nothing() {
    let mut store = CachedBlobStore::with_limit(Some(8));
    let op = store.put_block("x", b"abc");
    let op = match op.resume(&mut store, Event::Swept) {
        Progress::Pending(op) => op,
        Progress::Finished(_) => panic!("the write has not happened yet"),
    };
    assert!(matches!(op.action(), Action::PutBacking { .. }));
    let op = match op.resume(&mut store, Event::Wrote(Ok(()))) {
        Progress::Pending(op) => op,
        Progress::Finished(_) => panic!("the cache has not been written yet"),
    };
    assert!(matches!(op.action(), Action::PutCache { .. }));
    let op = match op.resume(&mut store, Event::Wrote(Err(broken()))) {
        Progress::Pending(op) => op,
        Progress::Finished(_) => panic!("a sweep is due"),
    };
    assert!(matches!(op.action(), Action::SweepCache { max_bytes: 8 }));
    assert!(matches!(
        op.resume(&mut store, Event::Swept),
        Progress::Finished(Ok(()))
    ));
}

#[test]
fn a_read_takes_absence_as_it_is_told() {
    let mut store = CachedBlobStore::new();
    let op = store.get_block("x");
    match op.answer(&mut store, Event::Read(Err(broken())), true) {
        Progress::Pending(op) => assert!(matches!(op.action(), Action::GetBacking { key: "x", .. })),
        Progress::Finished(_) => panic!("a miss goes on to the backing store"),
    }
    let op = store.get_block("x");
    assert!(matches!(
        op.answer(&mut store, Event::Read(Err(missing("x"))), false),
        Progress::Finished(Err(_))
    ));
}

#[test]
fn sweeps_of_concurrent_writes_do_not_overlap() {
    let mut store = CachedBlobStore::with_limit(Some(80));
    let step = |store: &mut CachedBlobStore, key: &'static str| {
        let op = store.put_block(key, b"0123456789");
        let op = match op.resume(store, Event::Wrote(Ok(()))) {
            Progress::Pending(op) => op,
            Progress::Finished(_) => panic!("the cache has not been written yet"),
        };
        op.resume(store, Event::Wrote(Ok(())))
    };
    let first = match step(&mut store, "a") {
        Progress::Pending(op) => op,
        Progress::Finished(_) => panic!("a sweep is due"),
    };
    assert!(matches!(first.action(), Action::SweepCache { max_bytes: 80 }));
    assert!(matches!(step(&mut store, "b"), Progress::Finished(Ok(()))));
    assert!(matches!(first.resume(&mut store, Event::Swept), Progress::Finished(Ok(()))));
    assert!(matches!(step(&mut store, "c"), Progress::Pending(_)));
}

#[test]
fn the_cache_passes_its_ceiling_by_less_than_an_eighth() {
    const LIMIT: u64 = 800;
    let mut w = World::new(CachedBlobStore::with_limit(Some(LIMIT)));
    let mut peak = 0;
    for i in 0..300u32 {
        w.log.clear();
        w.put_block(&format!("{:064x}", i), &vec![i as u8; 33 + (i % 17) as usize]).unwrap();
        peak = peak.max(w.used());
        assert!(w.used() < LIMIT + LIMIT / 8);
        if w.log.contains(&"sweep") {
            assert!(w.used() <= LIMIT);
        }
    }
    assert!(peak > LIMIT);
}

#[test]
fn a_pod_over_its_backstop_stops_caching_and_resumes_after_eviction() {
    let mut w = World::new(CachedBlobStore::for_pod(Some(80)));
    for i in 0..12u32 {
        w.put_block(&format!("{i}"), &[0u8; 10]).unwrap();
    }
    assert_eq!(w.used(), 90);
    assert!(!w.cached("9"));
    assert_eq!(w.log[w.log.len() - 2..], ["put backing", "measure"]);
    evict(&mut w.cache, 50);
    assert_eq!(w.used(), 40);
    w.put_block("12", &[0u8; 10]).unwrap();
    assert!(w.cached("12"));
}

#[test]
fn a_deleted_blob_is_not_found() {
    let mut w = World::new(CachedBlobStore::new());
    w.put_block("x", b"abc").unwrap();
    assert!(w.delete(Kind::Block, "x").unwrap());
    let e = w.get_block("x").unwrap_err();
    assert!(capsule_workspace_core::error::is_not_found(&e));
}

#[test]
fn a_read_returns_the_same_whatever_becomes_of_the_cache() {
    let stores = [
        (CachedBlobStore::new(), false),
        (CachedBlobStore::new(), true),
        (CachedBlobStore::with_limit(Some(16)), false),
        (CachedBlobStore::for_pod(Some(0)), false),
        (CachedBlobStore::for_pod(Some(1000)), true),
    ];
    for (store, cache_writes_broken) in stores {
        let mut w = World::new(store);
        w.cache_writes_broken = cache_writes_broken;
        w.cache.insert(("blocks", "hit".to_string()), (b"cached".to_vec(), 0));
        w.backing.insert(("blocks", "miss".to_string()), b"durable".to_vec());
        assert_eq!(w.get_block("hit").unwrap(), b"cached");
        assert_eq!(w.get_block("miss").unwrap(), b"durable");
        assert_eq!(w.get_block("neither").unwrap_err().to_string(), "not found: neither");
    }
}

#[test]
fn get_through_starts_at_the_cache() {
    let store = CachedBlobStore::new();
    let op = store.get_through(Kind::Manifest, "m");
    assert!(matches!(op.action(), Action::GetCache { kind: Kind::Manifest, key: "m" }));
}

#[test]
fn reads_and_writes_alike_stay_near_the_backstop() {
    const CAP: u64 = 800;
    const LARGEST: u64 = 49;
    let mut w = World::new(CachedBlobStore::for_pod(Some(CAP)));
    let mut peak = 0;
    for i in 0..300u32 {
        let (id, blob) = (format!("{i}"), vec![i as u8; 33 + (i % 17) as usize]);
        if i % 2 == 0 {
            w.put_block(&id, &blob).unwrap();
        } else {
            w.backing.insert(("blocks", id.clone()), blob.clone());
            assert_eq!(w.get_block(&id).unwrap(), blob);
        }
        peak = peak.max(w.used());
        assert!(w.used() <= CAP + CAP / 8 + LARGEST);
    }
    assert!(peak > CAP);
}

#[test]
fn reads_and_writes_alike_stay_near_the_ceiling() {
    const LIMIT: u64 = 800;
    let mut w = World::new(CachedBlobStore::with_limit(Some(LIMIT)));
    let (mut peak, mut sweeps) = (0, 0);
    for i in 0..300u32 {
        let (id, blob) = (format!("{i}"), vec![i as u8; 33 + (i % 17) as usize]);
        w.log.clear();
        if i % 3 == 0 {
            w.put_block(&id, &blob).unwrap();
        } else {
            w.backing.insert(("blocks", id.clone()), blob.clone());
            assert_eq!(w.get_block(&id).unwrap(), blob);
        }
        peak = peak.max(w.used());
        assert!(w.used() <= LIMIT + LIMIT / 8);
        if w.log.contains(&"sweep") {
            sweeps += 1;
            assert!(w.used() <= LIMIT);
        }
    }
    assert!(peak > LIMIT && sweeps > 0);
}

#[test]
fn reads_resume_caching_within_an_eighth_of_the_backstop() {
    let mut w = World::new(CachedBlobStore::for_pod(Some(800)));
    w.cache.insert(("blocks", "old".to_string()), (vec![0u8; 900], 0));
    w.put_block("full", &[0u8; 100]).unwrap();
    assert!(!w.cached("full"));
    w.cache.clear();
    for i in 0..4u32 {
        w.backing.insert(("blocks", format!("{i}")), vec![i as u8; 25]);
        assert_eq!(w.get_block(&format!("{i}")).unwrap(), vec![i as u8; 25]);
        assert_eq!(w.cached(&format!("{i}")), i == 3);
    }
}

#[test]
fn another_key_with_foreign_bytes_does_not_disturb_a_read() {
    let mut w = World::new(CachedBlobStore::new());
    w.cache.insert(("blocks", "y".to_string()), (b"stale".to_vec(), 0));
    w.backing.insert(("blocks", "y".to_string()), b"fresh".to_vec());
    w.put_block("x", b"abc").unwrap();
    assert_eq!(w.get_block("x").unwrap(), b"abc");
    w.cache.clear();
    assert_eq!(w.get_block("x").unwrap(), b"abc");
}
