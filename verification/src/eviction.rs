//! Which files a sweep removes: the oldest first, until the cache is back under nine tenths of its
//! ceiling.

use crate::listing::{cached_entries, checked_total, total_len, CacheEntry, CacheListing, Kind};
use vstd::prelude::*;
use vstd::relations::{sorted_by, total_ordering};

verus! {

/// Whether `a` is listed no later than `b`: blocks before manifests, then by slot.
pub open spec fn listed_no_later(a: CacheEntry, b: CacheEntry) -> bool {
    match (a.kind, b.kind) {
        (Kind::Block, Kind::Manifest) => true,
        (Kind::Manifest, Kind::Block) => false,
        _ => a.slot < b.slot || (a.slot == b.slot && a.len <= b.len),
    }
}

/// Whether `a` goes no later than `b`: the older file first, and of two equally old the one listed
/// first. Kind and slot tell any two files of a listing apart; the length only makes the order total.
pub open spec fn goes_no_later(a: CacheEntry, b: CacheEntry) -> bool {
    a.modified < b.modified || (a.modified == b.modified && listed_no_later(a, b))
}

/// The order by which files are evicted.
pub open spec fn eviction_order() -> spec_fn(CacheEntry, CacheEntry) -> bool {
    |a: CacheEntry, b: CacheEntry| goes_no_later(a, b)
}

/// The given files, oldest first; files of the same age stay in listing order.
pub open spec fn oldest_first(entries: Seq<CacheEntry>) -> Seq<CacheEntry> {
    entries.sort_by(eviction_order())
}

/// What a sweep aims for: a tenth under the ceiling.
pub open spec fn sweep_target(max_bytes: u64) -> u64 {
    (max_bytes - max_bytes / 10) as u64
}

/// A sweep in progress.
pub struct EvictionState {
    /// The files to remove, in order.
    pub order: Seq<CacheEntry>,
    /// How many of them have been tried.
    pub tried: nat,
    /// The size of the cache by what has been removed so far.
    pub total: u64,
    /// The size at which the sweep stops.
    pub target: u64,
}

impl EvictionState {
    /// The state in which a sweep of the given files starts: nothing is due while they fit under the
    /// ceiling, and otherwise they are due oldest first.
    pub open spec fn start(entries: Seq<CacheEntry>, max_bytes: u64) -> EvictionState {
        EvictionState {
            order: if total_len(entries) > max_bytes {
                oldest_first(entries)
            } else {
                Seq::empty()
            },
            tried: 0,
            total: total_len(entries) as u64,
            target: sweep_target(max_bytes),
        }
    }

    /// The file to remove next, if the sweep is not over.
    pub open spec fn victim(self) -> Option<CacheEntry> {
        if self.total <= self.target || self.tried >= self.order.len() {
            None
        } else {
            Some(self.order[self.tried as int])
        }
    }

    /// The state after an attempt at the next file. Only a file that is gone takes its size along.
    pub open spec fn attempted(self, gone: bool) -> EvictionState {
        match self.victim() {
            None => self,
            Some(file) => EvictionState {
                tried: self.tried + 1,
                total: if !gone {
                    self.total
                } else if self.total >= file.len {
                    (self.total - file.len) as u64
                } else {
                    0
                },
                ..self
            },
        }
    }
}

/// The order of eviction is a total order, so the order in which files go is determined.
pub proof fn lemma_eviction_order_is_total()
    ensures
        total_ordering(eviction_order()),
{
    let leq = eviction_order();
    assert forall|a: CacheEntry, b: CacheEntry| #[trigger] leq(a, b) && #[trigger] leq(b, a) implies a
        == b by {
        assert(a.kind == b.kind);
    }
}

/// Whether `a` goes no later than `b`.
fn precedes(a: &CacheEntry, b: &CacheEntry) -> (r: bool)
    ensures
        r == goes_no_later(*a, *b),
{
    if a.modified < b.modified {
        true
    } else if a.modified > b.modified {
        false
    } else {
        match (a.kind, b.kind) {
            (Kind::Block, Kind::Manifest) => true,
            (Kind::Manifest, Kind::Block) => false,
            _ => a.slot < b.slot || (a.slot == b.slot && a.len <= b.len),
        }
    }
}

/// Merges two runs that are each in eviction order.
fn merge(a: &Vec<CacheEntry>, b: &Vec<CacheEntry>) -> (r: Vec<CacheEntry>)
    requires
        sorted_by(a@, eviction_order()),
        sorted_by(b@, eviction_order()),
    ensures
        sorted_by(r@, eviction_order()),
        r@.to_multiset() == a@.to_multiset().add(b@.to_multiset()),
{
    let ghost leq = eviction_order();
    let mut r: Vec<CacheEntry> = Vec::new();
    let mut i: usize = 0;
    let mut j: usize = 0;
    proof {
        broadcast use vstd::seq_lib::group_to_multiset_ensures;

        lemma_eviction_order_is_total();
        assert(a@.take(0) == Seq::<CacheEntry>::empty());
        assert(b@.take(0) == Seq::<CacheEntry>::empty());
        assert(r@.to_multiset() =~= a@.take(0).to_multiset().add(b@.take(0).to_multiset()));
    }
    while i < a.len() || j < b.len()
        invariant
            i <= a.len(),
            j <= b.len(),
            leq == eviction_order(),
            total_ordering(leq),
            sorted_by(a@, leq),
            sorted_by(b@, leq),
            sorted_by(r@, leq),
            r@.to_multiset() == a@.take(i as int).to_multiset().add(b@.take(j as int).to_multiset()),
            forall|k: int, m: int|
                0 <= k < r.len() && i <= m < a.len() ==> leq(#[trigger] r@[k], #[trigger] a@[m]),
            forall|k: int, m: int|
                0 <= k < r.len() && j <= m < b.len() ==> leq(#[trigger] r@[k], #[trigger] b@[m]),
        decreases a.len() - i + b.len() - j,
    {
        let ghost before = r@;
        if j >= b.len() || (i < a.len() && precedes(&a[i], &b[j])) {
            r.push(a[i]);
            proof {
                broadcast use vstd::seq_lib::group_to_multiset_ensures;

                assert(a@.take(i + 1) == a@.take(i as int).push(a@[i as int]));
                assert(r@ == before.push(a@[i as int]));
                assert(r@.to_multiset() =~= a@.take(i + 1).to_multiset().add(
                    b@.take(j as int).to_multiset(),
                ));
                assert forall|m: int| i + 1 <= m < a.len() implies leq(a@[i as int], #[trigger] a@[m]) by {}
                assert forall|m: int| j <= m < b.len() implies leq(a@[i as int], #[trigger] b@[m]) by {
                    assert(leq(a@[i as int], b@[j as int]));
                    assert(leq(b@[j as int], b@[m]));
                }
            }
            i = i + 1;
        } else {
            r.push(b[j]);
            proof {
                broadcast use vstd::seq_lib::group_to_multiset_ensures;

                assert(b@.take(j + 1) == b@.take(j as int).push(b@[j as int]));
                assert(r@ == before.push(b@[j as int]));
                assert(r@.to_multiset() =~= a@.take(i as int).to_multiset().add(
                    b@.take(j + 1).to_multiset(),
                ));
                assert forall|m: int| j + 1 <= m < b.len() implies leq(b@[j as int], #[trigger] b@[m]) by {}
                assert forall|m: int| i <= m < a.len() implies leq(b@[j as int], #[trigger] a@[m]) by {
                    assert(leq(b@[j as int], a@[i as int]));
                    assert(leq(a@[i as int], a@[m]));
                }
            }
            j = j + 1;
        }
    }
    assert(a@.take(a.len() as int) == a@);
    assert(b@.take(b.len() as int) == b@);
    r
}

/// Sorts the files from `lo` up to `hi` into eviction order.
fn sort_range(v: &Vec<CacheEntry>, lo: usize, hi: usize) -> (r: Vec<CacheEntry>)
    requires
        lo <= hi <= v.len(),
    ensures
        sorted_by(r@, eviction_order()),
        r@.to_multiset() == v@.subrange(lo as int, hi as int).to_multiset(),
    decreases hi - lo,
{
    let mut r: Vec<CacheEntry> = Vec::new();
    if hi - lo >= 2 {
        let mid: usize = lo + (hi - lo) / 2;
        let left = sort_range(v, lo, mid);
        let right = sort_range(v, mid, hi);
        r = merge(&left, &right);
        proof {
            let a = v@.subrange(lo as int, mid as int);
            let b = v@.subrange(mid as int, hi as int);
            vstd::seq_lib::lemma_multiset_commutative(a, b);
            assert(a + b == v@.subrange(lo as int, hi as int));
        }
    } else {
        if lo < hi {
            r.push(v[lo]);
        }
        assert(r@ == v@.subrange(lo as int, hi as int));
        proof {
            lemma_eviction_order_is_total();
        }
    }
    r
}

/// The given files, oldest first; files of the same age stay in listing order.
pub fn sort_oldest_first(v: &Vec<CacheEntry>) -> (r: Vec<CacheEntry>)
    ensures
        r@ == oldest_first(v@),
{
    let r = sort_range(v, 0, v.len());
    proof {
        lemma_eviction_order_is_total();
        assert(v@.subrange(0, v.len() as int) == v@);
        v@.lemma_sort_by_ensures(eviction_order());
        vstd::seq_lib::lemma_sorted_unique(r@, oldest_first(v@), eviction_order());
    }
    r
}

/// A sweep: it names the file to remove next, and is told whether that file is gone.
pub struct Eviction {
    order: Vec<CacheEntry>,
    tried: usize,
    total: u64,
    target: u64,
}

impl View for Eviction {
    type V = EvictionState;

    closed spec fn view(&self) -> EvictionState {
        EvictionState {
            order: self.order@,
            tried: self.tried as nat,
            total: self.total,
            target: self.target,
        }
    }
}

impl Eviction {
    #[verifier::type_invariant]
    closed spec fn inv(self) -> bool {
        self.tried <= self.order.len()
    }

    /// The file to remove next; `None` once the sweep is over.
    pub fn next_victim(&self) -> (r: Option<CacheEntry>)
        ensures
            r == self@.victim(),
    {
        if self.total <= self.target || self.tried >= self.order.len() {
            None
        } else {
            Some(self.order[self.tried])
        }
    }

    /// Takes note of an attempt to remove the file that `next_victim` named. A sweep that is over
    /// stays as it is.
    pub fn attempted(&mut self, gone: bool)
        ensures
            final(self)@ == old(self)@.attempted(gone),
    {
        if let Some(file) = self.next_victim() {
            assert(self.tried < self.order.len());
            self.tried = self.tried + 1;
            if gone {
                self.total = self.total.saturating_sub(file.len);
            }
        }
    }
}

/// Starts a sweep of the listed cache down to nine tenths of `max_bytes`. Files still being staged
/// are neither counted nor removed, and a cache that fits under `max_bytes` is left alone.
pub fn evict_to_limit(listing: &CacheListing, max_bytes: u64) -> (r: Eviction)
    requires
        listing.bytes() <= u64::MAX,
    ensures
        r@ == EvictionState::start(listing.entries(), max_bytes),
{
    let entries = cached_entries(listing);
    let total: u64 = match checked_total(&entries) {
        Some(t) => t,
        None => 0,
    };
    let order: Vec<CacheEntry> = if total > max_bytes {
        sort_oldest_first(&entries)
    } else {
        Vec::new()
    };
    Eviction { order, tried: 0, total, target: max_bytes - max_bytes / 10 }
}

} // verus!
