//! Which files count as cached, and which of them a sweep removes.

use capsule_workspace_core::cache::evict_to_limit;
use capsule_workspace_core::eviction::sort_oldest_first;
use capsule_workspace_core::listing::{
    cache_size, cached_entries, checked_total, is_staging, CacheEntry, CacheListing, DirEntry, Kind,
    Metadata,
};

fn file(name: &str, len: u64, modified: i128) -> DirEntry {
    DirEntry {
        name: name.to_string(),
        metadata: Some(Metadata { is_file: true, len, modified: Some(modified) }),
    }
}

fn blocks(blocks: Vec<DirEntry>) -> CacheListing {
    CacheListing { blocks, manifests: Vec::new() }
}

fn victims(listing: &CacheListing, max_bytes: u64) -> Vec<(Kind, usize)> {
    let mut sweep = evict_to_limit(listing, max_bytes);
    let mut out = Vec::new();
    while let Some(f) = sweep.next_victim() {
        out.push((f.kind, f.slot));
        sweep.attempted(true);
    }
    out
}

#[test]
fn staging_names_end_in_tmp() {
    assert!(is_staging("abc.tmp"));
    assert!(is_staging(".tmp"));
    assert!(is_staging("\u{fffd}.tmp"));
    assert!(!is_staging("tmp"));
    assert!(!is_staging("abc.tmp2"));
    assert!(!is_staging("abc.TMP"));
    assert!(!is_staging("abctmp"));
    assert!(!is_staging(""));
}

#[test]
fn only_finished_files_count() {
    let mut listing = blocks(vec![file("a", 10, 5), file("b.tmp", 100, 1)]);
    listing.blocks.push(DirEntry { name: "unreadable".to_string(), metadata: None });
    listing.blocks.push(DirEntry {
        name: "subdir".to_string(),
        metadata: Some(Metadata { is_file: false, len: 4096, modified: Some(1) }),
    });
    listing.manifests.push(DirEntry {
        name: "m".to_string(),
        metadata: Some(Metadata { is_file: true, len: 7, modified: None }),
    });
    assert_eq!(
        cached_entries(&listing),
        vec![
            CacheEntry { kind: Kind::Block, slot: 0, modified: 5, len: 10 },
            CacheEntry { kind: Kind::Manifest, slot: 0, modified: 0, len: 7 },
        ]
    );
    assert_eq!(cache_size(&listing), 17);
}

#[test]
fn a_size_past_64_bits_is_noticed() {
    let listing = blocks(vec![file("a", u64::MAX, 0), file("b", 1, 0)]);
    assert_eq!(checked_total(&cached_entries(&listing)), None);
    let listing = blocks(vec![file("a", u64::MAX, 0), file("b", 0, 0)]);
    assert_eq!(checked_total(&cached_entries(&listing)), Some(u64::MAX));
    assert_eq!(cache_size(&listing), u64::MAX);
}

#[test]
fn a_cache_at_its_ceiling_is_left_alone() {
    let listing = blocks(vec![file("a", 60, 1), file("b", 40, 2)]);
    assert_eq!(victims(&listing, 100), vec![]);
    assert_eq!(victims(&listing, 99), vec![(Kind::Block, 0)]);
}

#[test]
fn a_sweep_stops_at_nine_tenths() {
    let listing = blocks(vec![file("a", 10, 1), file("b", 1, 2), file("c", 90, 3)]);
    assert_eq!(victims(&listing, 100), vec![(Kind::Block, 0), (Kind::Block, 1)]);
    let listing = blocks(vec![file("a", 11, 1), file("b", 1, 2), file("c", 89, 3)]);
    assert_eq!(victims(&listing, 100), vec![(Kind::Block, 0)]);
}

#[test]
fn the_oldest_file_of_either_directory_goes_first() {
    let listing = CacheListing {
        blocks: vec![file("a", 10, 30), file("b", 10, 10)],
        manifests: vec![file("c", 10, 20), file("d", 10, -5)],
    };
    assert_eq!(
        victims(&listing, 0),
        vec![(Kind::Manifest, 1), (Kind::Block, 1), (Kind::Manifest, 0), (Kind::Block, 0)]
    );
}

#[test]
fn files_of_the_same_age_go_in_listing_order() {
    let entry = |kind, slot, modified| CacheEntry { kind, slot, modified, len: 1 };
    let entries = vec![
        entry(Kind::Block, 0, 7),
        entry(Kind::Block, 1, 3),
        entry(Kind::Block, 2, 7),
        entry(Kind::Manifest, 0, 3),
        entry(Kind::Manifest, 1, 7),
    ];
    let order: Vec<(Kind, usize)> =
        sort_oldest_first(&entries).iter().map(|e| (e.kind, e.slot)).collect();
    assert_eq!(
        order,
        vec![
            (Kind::Block, 1),
            (Kind::Manifest, 0),
            (Kind::Block, 0),
            (Kind::Block, 2),
            (Kind::Manifest, 1),
        ]
    );
}

#[test]
fn sorting_agrees_with_a_stable_sort_by_age() {
    let mut entries = Vec::new();
    let mut x: u64 = 12345;
    for slot in 0..500usize {
        x = x.wrapping_mul(6364136223846793005).wrapping_add(1442695040888963407);
        let modified = ((x >> 33) % 50) as i128;
        entries.push(CacheEntry { kind: Kind::Block, slot, modified, len: x >> 40 });
    }
    let mut want = entries.clone();
    want.sort_by_key(|e| e.modified);
    assert_eq!(sort_oldest_first(&entries), want);
}

#[test]
fn a_file_that_cannot_be_removed_still_counts() {
    let listing = blocks(vec![file("a", 50, 1), file("b", 30, 2), file("c", 30, 3)]);
    let mut sweep = evict_to_limit(&listing, 100);
    assert_eq!(sweep.next_victim().unwrap().slot, 0);
    sweep.attempted(false);
    assert_eq!(sweep.next_victim().unwrap().slot, 1);
    sweep.attempted(true);
    assert!(sweep.next_victim().is_none());
    sweep.attempted(true);
    assert!(sweep.next_victim().is_none());
}

#[test]
fn a_sweep_that_can_remove_nothing_ends() {
    let listing = blocks(vec![file("a", 50, 1), file("b", 80, 2)]);
    let mut sweep = evict_to_limit(&listing, 100);
    let mut attempts = 0;
    while sweep.next_victim().is_some() {
        attempts += 1;
        sweep.attempted(false);
    }
    assert_eq!(attempts, 2);
}
