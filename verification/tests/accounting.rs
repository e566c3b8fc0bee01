//! When a cache write is skipped, when the cache is measured, and when it is swept.

use capsule_workspace_core::cache::{BackstopCheck, CachedBlobStore};

#[test]
fn a_store_without_limits_neither_skips_nor_sweeps() {
    let mut store = CachedBlobStore::new();
    assert_eq!(store.backstop_skip(u64::MAX), BackstopCheck::Admit);
    assert_eq!(store.maybe_sweep(u64::MAX), None);
    assert!(!store.measured(u64::MAX));
}

#[test]
fn a_sweep_is_due_once_an_eighth_of_the_ceiling_is_written() {
    let mut store = CachedBlobStore::with_limit(Some(800));
    assert_eq!(store.maybe_sweep(99), None);
    assert_eq!(store.maybe_sweep(1), Some(800));
    store.sweep_done();
    assert_eq!(store.maybe_sweep(99), None);
    assert_eq!(store.maybe_sweep(100), Some(800));
}

#[test]
fn a_sweep_waits_for_the_one_under_way_and_keeps_count() {
    let mut store = CachedBlobStore::with_limit(Some(800));
    assert_eq!(store.maybe_sweep(100), Some(800));
    assert_eq!(store.maybe_sweep(100), None);
    store.sweep_done();
    assert_eq!(store.maybe_sweep(0), Some(800));
}

#[test]
fn a_ceiling_does_not_skip_and_a_backstop_does_not_sweep() {
    let mut limited = CachedBlobStore::with_limit(Some(8));
    assert_eq!(limited.backstop_skip(1000), BackstopCheck::Admit);
    let mut pod = CachedBlobStore::for_pod(Some(8));
    assert_eq!(pod.maybe_sweep(1000), None);
}

#[test]
fn the_backstop_measures_once_per_eighth_and_remembers() {
    let mut pod = CachedBlobStore::for_pod(Some(800));
    assert_eq!(pod.backstop_skip(99), BackstopCheck::Admit);
    assert_eq!(pod.backstop_skip(1), BackstopCheck::Measure);
    assert!(pod.measured(801));
    assert_eq!(pod.backstop_skip(99), BackstopCheck::Skip);
    assert_eq!(pod.backstop_skip(1), BackstopCheck::Measure);
    assert!(!pod.measured(800));
    assert_eq!(pod.backstop_skip(99), BackstopCheck::Admit);
}

#[test]
fn a_tiny_backstop_measures_every_time() {
    let mut pod = CachedBlobStore::for_pod(Some(7));
    assert_eq!(pod.backstop_skip(0), BackstopCheck::Measure);
    assert!(pod.measured(8));
    assert_eq!(pod.backstop_skip(0), BackstopCheck::Measure);
    assert!(!pod.measured(7));
}

#[test]
fn the_counter_wraps_around() {
    let mut store = CachedBlobStore::with_limit(Some(u64::MAX));
    assert_eq!(store.maybe_sweep(u64::MAX / 8), Some(u64::MAX));
    assert_eq!(store.maybe_sweep(u64::MAX), None);
    store.sweep_done();
    assert_eq!(store.maybe_sweep(1), None);
    assert_eq!(store.maybe_sweep(u64::MAX / 8), Some(u64::MAX));
}

#[test]
fn a_skip_ends_within_an_eighth_of_the_backstop() {
    let mut store = CachedBlobStore::for_pod(Some(800));
    assert_eq!(store.backstop_skip(100), BackstopCheck::Measure);
    assert!(store.measured(801));
    for _ in 0..3 {
        assert_eq!(store.backstop_skip(33), BackstopCheck::Skip);
    }
    assert_eq!(store.backstop_skip(1), BackstopCheck::Measure);
    assert!(!store.measured(800));
    assert_eq!(store.backstop_skip(33), BackstopCheck::Admit);
}
