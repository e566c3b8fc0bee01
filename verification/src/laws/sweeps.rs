//! Laws of a sweep: what it removes, in what order, and what it leaves.

use crate::eviction::{
    eviction_order, goes_no_later, lemma_eviction_order_is_total, oldest_first, sweep_target,
    EvictionState,
};
use crate::listing::{
    counts, dir_entries, entry_at, lemma_total_len_concat, total_len, CacheEntry, CacheListing,
    DirEntry, Kind,
};
use vstd::prelude::*;
use vstd::relations::sorted_by;

verus! {

/// A sweep after the given attempts, each with whether its file is gone.
pub open spec fn after_attempts(start: EvictionState, gone: Seq<bool>) -> EvictionState
    decreases gone.len(),
{
    if gone.len() == 0 {
        start
    } else {
        after_attempts(start, gone.drop_last()).attempted(gone.last())
    }
}

/// Whether the given attempts are those of a sweep: each is made while a file is due.
pub open spec fn is_sweep(entries: Seq<CacheEntry>, max_bytes: u64, gone: Seq<bool>) -> bool
    decreases gone.len(),
{
    gone.len() > 0 ==> {
        &&& is_sweep(entries, max_bytes, gone.drop_last())
        &&& after_attempts(
            EvictionState::start(entries, max_bytes),
            gone.drop_last(),
        ).victim() is Some
    }
}

/// How many bytes the attempts among the first files of `order` removed.
pub open spec fn gone_len(order: Seq<CacheEntry>, gone: Seq<bool>) -> nat
    decreases gone.len(),
{
    if gone.len() == 0 {
        0
    } else {
        gone_len(order, gone.drop_last()) + (if gone.last() {
            order[gone.len() - 1].len as nat
        } else {
            0
        })
    }
}

/// A directory lists as cached exactly its files that no writer is still staging: such a file is never
/// counted nor evicted, and every other one is.
pub proof fn law_staged_files_are_left_alone(kind: Kind, dir: Seq<DirEntry>, e: CacheEntry)
    requires
        dir.len() <= usize::MAX,
    ensures
        dir_entries(kind, dir).contains(e) <==> {
            &&& e.slot < dir.len()
            &&& counts(dir[e.slot as int])
            &&& e == entry_at(kind, dir, e.slot as int)
        },
    decreases dir.len(),
{
    if dir.len() > 0 {
        let rest = dir.drop_last();
        let n = dir.len() - 1;
        law_staged_files_are_left_alone(kind, rest, e);
        let inner = dir_entries(kind, rest);
        let outer = dir_entries(kind, dir);
        if counts(dir.last()) {
            let last = entry_at(kind, dir, n);
            assert(outer == inner.push(last));
            assert(outer[outer.len() - 1] == last);
            if inner.contains(e) {
                let i = choose|i: int| 0 <= i < inner.len() && inner[i] == e;
                assert(outer[i] == e);
            }
            if outer.contains(e) && !inner.contains(e) {
                let i = choose|i: int| 0 <= i < outer.len() && outer[i] == e;
                if i < inner.len() {
                    assert(inner[i] == e);
                }
            }
        }
        if e.slot < n {
            assert(rest[e.slot as int] == dir[e.slot as int]);
        }
    }
}

/// What a sweep aims for lies between nine tenths of the ceiling and the ceiling.
pub proof fn law_target_is_nine_tenths(max_bytes: u64)
    ensures
        sweep_target(max_bytes) <= max_bytes,
        10 * sweep_target(max_bytes) >= 9 * max_bytes,
        10 * sweep_target(max_bytes) < 9 * max_bytes + 10,
{
}

/// A cache that fits under the ceiling is left alone.
pub proof fn law_small_cache_is_left_alone(entries: Seq<CacheEntry>, max_bytes: u64)
    requires
        total_len(entries) <= max_bytes,
    ensures
        EvictionState::start(entries, max_bytes).victim() is None,
{
}

/// A cache over the ceiling is due in full, each file once, and the older of two files first; of two
/// that are equally old, the one listed first.
pub proof fn law_all_files_are_due_oldest_first(entries: Seq<CacheEntry>)
    ensures
        oldest_first(entries).to_multiset() == entries.to_multiset(),
        oldest_first(entries).len() == entries.len(),
        forall|i: int, j: int|
            0 <= i < j < entries.len() ==> goes_no_later(
                #[trigger] oldest_first(entries)[i],
                #[trigger] oldest_first(entries)[j],
            ),
        forall|e: CacheEntry|
            entries.contains(e) <==> #[trigger] oldest_first(entries).contains(e),
{
    lemma_eviction_order_is_total();
    entries.lemma_sort_by_ensures(eviction_order());
    let order = oldest_first(entries);
    assert(sorted_by(order, eviction_order()));
    assert(order.to_multiset().len() == entries.to_multiset().len());
    entries.to_multiset_ensures();
    order.to_multiset_ensures();
    assert forall|i: int, j: int| 0 <= i < j < entries.len() implies goes_no_later(
        #[trigger] order[i],
        #[trigger] order[j],
    ) by {
        assert(eviction_order()(order[i], order[j]));
    }
    assert forall|e: CacheEntry| entries.contains(e) <==> #[trigger] order.contains(e) by {
        assert(entries.contains(e) <==> entries.to_multiset().count(e) > 0);
        assert(order.contains(e) <==> order.to_multiset().count(e) > 0);
    }
}

/// How an attempted sweep stands: it has been through as many files as there were attempts, its total
/// is what it started with less what is gone, and every attempt was made over the target.
proof fn lemma_sweep_progress(entries: Seq<CacheEntry>, max_bytes: u64, gone: Seq<bool>)
    requires
        total_len(entries) <= u64::MAX,
        is_sweep(entries, max_bytes, gone),
    ensures
        ({
            let start = EvictionState::start(entries, max_bytes);
            let now = after_attempts(start, gone);
            &&& now.order == start.order
            &&& now.target == start.target
            &&& now.tried == gone.len()
            &&& gone.len() <= start.order.len()
            &&& now.total == total_len(entries) - gone_len(start.order, gone)
            &&& gone_len(start.order, gone) <= total_len(start.order.take(gone.len() as int))
            &&& start.order.len() > 0 ==> total_len(start.order) == total_len(entries)
        }),
    decreases gone.len(),
{
    let start = EvictionState::start(entries, max_bytes);
    if start.order.len() > 0 {
        law_all_files_are_due_oldest_first(entries);
        lemma_total_len_of_multiset(oldest_first(entries), entries);
    }
    if gone.len() > 0 {
        let rest = gone.drop_last();
        lemma_sweep_progress(entries, max_bytes, rest);
        let n = rest.len() as int;
        assert(start.order.take(n + 1).drop_last() == start.order.take(n));
        assert(start.order.take(n + 1) + start.order.skip(n + 1) == start.order);
        lemma_total_len_concat(start.order.take(n + 1), start.order.skip(n + 1));
    }
}

/// The size of a collection of files does not depend on their order.
pub proof fn lemma_total_len_of_multiset(a: Seq<CacheEntry>, b: Seq<CacheEntry>)
    requires
        a.to_multiset() == b.to_multiset(),
    ensures
        total_len(a) == total_len(b),
    decreases a.len(),
{
    a.to_multiset_ensures();
    b.to_multiset_ensures();
    assert(a.len() == b.len());
    if a.len() > 0 {
        let x = a.last();
        assert(a.contains(x));
        assert(a.to_multiset().count(x) > 0);
        assert(b.contains(x));
        let i = choose|i: int| 0 <= i < b.len() && b[i] == x;
        assert(a.drop_last() == a.remove(a.len() - 1));
        assert(a.drop_last().to_multiset() == b.remove(i).to_multiset());
        lemma_total_len_of_multiset(a.drop_last(), b.remove(i));
        assert(b.remove(i) == b.take(i) + b.skip(i + 1));
        lemma_total_len_concat(b.take(i), b.skip(i + 1));
        assert(b == b.take(i + 1) + b.skip(i + 1));
        lemma_total_len_concat(b.take(i + 1), b.skip(i + 1));
        assert(b.take(i + 1).drop_last() == b.take(i));
    }
}

/// A sweep ends after at most one attempt per file, and its total is at all times the size of the
/// cache less what is gone: a file that could not be removed still counts.
pub proof fn law_sweep_accounts_for_what_is_gone(
    entries: Seq<CacheEntry>,
    max_bytes: u64,
    gone: Seq<bool>,
)
    requires
        total_len(entries) <= u64::MAX,
        is_sweep(entries, max_bytes, gone),
    ensures
        gone.len() <= entries.len(),
        after_attempts(EvictionState::start(entries, max_bytes), gone).total == total_len(entries)
            - gone_len(EvictionState::start(entries, max_bytes).order, gone),
{
    lemma_sweep_progress(entries, max_bytes, gone);
    law_all_files_are_due_oldest_first(entries);
}

/// A sweep whose removals all succeed brings the cache under the ceiling, and a cache that was over it
/// down to the target; what is then left are the files that were not due, and their size is the total.
pub proof fn law_sweep_holds_the_ceiling(
    entries: Seq<CacheEntry>,
    max_bytes: u64,
    gone: Seq<bool>,
)
    requires
        total_len(entries) <= u64::MAX,
        is_sweep(entries, max_bytes, gone),
        forall|i: int| 0 <= i < gone.len() ==> #[trigger] gone[i],
        after_attempts(EvictionState::start(entries, max_bytes), gone).victim() is None,
    ensures
        after_attempts(EvictionState::start(entries, max_bytes), gone).total <= max_bytes,
        total_len(entries) > max_bytes ==> {
            &&& after_attempts(EvictionState::start(entries, max_bytes), gone).total
                <= sweep_target(max_bytes)
            &&& after_attempts(EvictionState::start(entries, max_bytes), gone).total == total_len(
                oldest_first(entries).skip(gone.len() as int),
            )
        },
{
    let start = EvictionState::start(entries, max_bytes);
    let n = gone.len() as int;
    lemma_sweep_progress(entries, max_bytes, gone);
    law_target_is_nine_tenths(max_bytes);
    if total_len(entries) > max_bytes {
        law_all_files_are_due_oldest_first(entries);
        lemma_all_gone(start.order, gone);
        assert(start.order.take(n) + start.order.skip(n) == start.order);
        lemma_total_len_concat(start.order.take(n), start.order.skip(n));
        if n == start.order.len() {
            assert(start.order.skip(n) == Seq::<CacheEntry>::empty());
        }
    }
}

/// If every removal succeeds, what is gone are the first files in full.
proof fn lemma_all_gone(order: Seq<CacheEntry>, gone: Seq<bool>)
    requires
        gone.len() <= order.len(),
        forall|i: int| 0 <= i < gone.len() ==> #[trigger] gone[i],
    ensures
        gone_len(order, gone) == total_len(order.take(gone.len() as int)),
    decreases gone.len(),
{
    if gone.len() > 0 {
        let n = gone.len() - 1;
        lemma_all_gone(order, gone.drop_last());
        assert(order.take(n + 1).drop_last() == order.take(n));
        assert(gone[n]);
    }
}

/// A sweep removes no more than it has to: before each attempt the cache was still over the target.
/// What it leaves is therefore short of the target by less than the size of the last file.
pub proof fn law_sweep_stops_at_the_target(
    entries: Seq<CacheEntry>,
    max_bytes: u64,
    gone: Seq<bool>,
)
    requires
        total_len(entries) <= u64::MAX,
        is_sweep(entries, max_bytes, gone),
        gone.len() > 0,
    ensures
        after_attempts(EvictionState::start(entries, max_bytes), gone).total + oldest_first(
            entries,
        )[gone.len() - 1].len > sweep_target(max_bytes),
{
    let start = EvictionState::start(entries, max_bytes);
    let rest = gone.drop_last();
    lemma_sweep_progress(entries, max_bytes, gone);
    lemma_sweep_progress(entries, max_bytes, rest);
}

/// The longer ago a file was used, the sooner it goes: by the time a file is due, every older one has
/// been tried. So a file that was touched last goes last.
pub proof fn law_older_files_go_first(
    entries: Seq<CacheEntry>,
    max_bytes: u64,
    gone: Seq<bool>,
    due: CacheEntry,
    older: CacheEntry,
)
    requires
        total_len(entries) <= u64::MAX,
        is_sweep(entries, max_bytes, gone),
        after_attempts(EvictionState::start(entries, max_bytes), gone).victim() == Some(due),
        entries.contains(older),
        older.modified < due.modified,
    ensures
        oldest_first(entries).take(gone.len() as int).contains(older),
{
    let order = oldest_first(entries);
    let n = gone.len() as int;
    lemma_sweep_progress(entries, max_bytes, gone);
    law_all_files_are_due_oldest_first(entries);
    assert(order.contains(older));
    let i = choose|i: int| 0 <= i < order.len() && order[i] == older;
    assert(order[n] == due);
    if i > n {
        assert(goes_no_later(order[n], order[i]));
    }
    assert(order.take(n)[i] == older);
}

/// No two cached files of a listing are the same one.
pub proof fn law_listed_files_are_distinct(listing: CacheListing)
    ensures
        listing.entries().no_duplicates(),
{
    let a = dir_entries(Kind::Block, listing.blocks@);
    let b = dir_entries(Kind::Manifest, listing.manifests@);
    assert(listing.blocks@.len() == listing.blocks.len());
    assert(listing.manifests@.len() == listing.manifests.len());
    lemma_slots_increase(Kind::Block, listing.blocks@);
    lemma_slots_increase(Kind::Manifest, listing.manifests@);
    let all = listing.entries();
    assert forall|i: int, j: int| 0 <= i < all.len() && 0 <= j < all.len() && i != j implies all[i]
        != all[j] by {
        if i < a.len() {
            assert(all[i] == a[i]);
        } else {
            assert(all[i] == b[i - a.len()]);
        }
        if j < a.len() {
            assert(all[j] == a[j]);
        } else {
            assert(all[j] == b[j - a.len()]);
        }
    }
}

/// The cached files of a directory are of its kind, and listed by increasing slot.
pub proof fn lemma_slots_increase(kind: Kind, dir: Seq<DirEntry>)
    requires
        dir.len() <= usize::MAX,
    ensures
        forall|i: int|
            0 <= i < dir_entries(kind, dir).len() ==> {
                &&& (#[trigger] dir_entries(kind, dir)[i]).kind == kind
                &&& dir_entries(kind, dir)[i].slot < dir.len()
            },
        forall|i: int, j: int|
            0 <= i < j < dir_entries(kind, dir).len() ==> (#[trigger] dir_entries(kind, dir)[i]).slot
                < (#[trigger] dir_entries(kind, dir)[j]).slot,
    decreases dir.len(),
{
    if dir.len() > 0 {
        lemma_slots_increase(kind, dir.drop_last());
    }
}

/// The file that was used last survives a sweep if it fits under the target by itself, provided that
/// the older files can be removed.
pub proof fn law_newest_file_survives(
    listing: CacheListing,
    max_bytes: u64,
    gone: Seq<bool>,
    newest: CacheEntry,
)
    requires
        listing.bytes() <= u64::MAX,
        is_sweep(listing.entries(), max_bytes, gone),
        forall|i: int| 0 <= i < gone.len() ==> #[trigger] gone[i],
        forall|e: CacheEntry| #[trigger]
            listing.entries().contains(e) && e != newest ==> e.modified < newest.modified,
        newest.len <= sweep_target(max_bytes),
    ensures
        after_attempts(EvictionState::start(listing.entries(), max_bytes), gone).victim() != Some(
            newest,
        ),
{
    let entries = listing.entries();
    let start = EvictionState::start(entries, max_bytes);
    let now = after_attempts(start, gone);
    let order = oldest_first(entries);
    let n = gone.len() as int;
    if now.victim() == Some(newest) {
        lemma_sweep_progress(entries, max_bytes, gone);
        law_all_files_are_due_oldest_first(entries);
        law_listed_files_are_distinct(listing);
        entries.lemma_multiset_has_no_duplicates();
        order.lemma_multiset_has_no_duplicates_conv();
        lemma_all_gone(order, gone);
        assert(order[n] == newest);
        if n + 1 < order.len() {
            assert(goes_no_later(order[n], order[n + 1]));
            assert(order.contains(order[n + 1]));
            assert(order[n + 1] != order[n]);
        }
        assert(order.take(n + 1) == order);
        assert(order.drop_last() == order.take(n));
    }
}

} // verus!
