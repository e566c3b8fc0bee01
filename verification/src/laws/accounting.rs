//! Laws of the accounting: what every store keeps, and how large its cache can grow.

use crate::cache::{BackstopCheck, StoreState};
use crate::eviction::sweep_target;
use vstd::prelude::*;

verus! {

/// Whatever is done to a store, its ceiling and its backstop stay what they were made, and it stays
/// valid. In particular it never has both.
pub proof fn law_limits_are_fixed(s: StoreState, wrote: u64, size: u64)
    requires
        s.valid(),
    ensures
        s.backstop_skip(wrote).0.valid(),
        s.measured(size).valid(),
        s.maybe_sweep(wrote).0.valid(),
        s.sweep_done().valid(),
        s.backstop_skip(wrote).0.max_bytes == s.max_bytes,
        s.measured(size).max_bytes == s.max_bytes,
        s.maybe_sweep(wrote).0.max_bytes == s.max_bytes,
        s.sweep_done().max_bytes == s.max_bytes,
        s.backstop_skip(wrote).0.backstop == s.backstop,
        s.measured(size).backstop == s.backstop,
        s.maybe_sweep(wrote).0.backstop == s.backstop,
        s.sweep_done().backstop == s.backstop,
{
}

/// A store that was made for a pod never sweeps, and one that was made without a backstop never
/// skips a cache write nor measures the cache.
pub proof fn law_each_limit_acts_alone(s: StoreState, wrote: u64)
    requires
        s.valid(),
    ensures
        s.max_bytes is None ==> s.maybe_sweep(wrote) == (s, None::<u64>),
        s.backstop is None ==> s.backstop_skip(wrote) == (s, BackstopCheck::Admit),
        s.max_bytes is Some ==> s.backstop_skip(wrote).1 == BackstopCheck::Admit,
        s.backstop is Some ==> s.maybe_sweep(wrote).1 is None,
{
}

/// A call that has to do with sweeping.
pub enum SweepCall {
    /// A blob of so many bytes is accounted for.
    Account(u64),
    /// A sweep ends.
    Done,
}

/// A store after a series of such calls.
pub open spec fn after_calls(s: StoreState, calls: Seq<SweepCall>) -> StoreState
    decreases calls.len(),
{
    if calls.len() == 0 {
        s
    } else {
        let last = after_calls(s, calls.drop_last());
        match calls.last() {
            SweepCall::Account(wrote) => last.maybe_sweep(wrote).0,
            SweepCall::Done => last.sweep_done(),
        }
    }
}

/// How many sweeps have been started and not ended.
pub open spec fn in_flight(s: StoreState, calls: Seq<SweepCall>) -> int
    decreases calls.len(),
{
    if calls.len() == 0 {
        0
    } else {
        let last = after_calls(s, calls.drop_last());
        in_flight(s, calls.drop_last()) + match calls.last() {
            SweepCall::Account(wrote) => if last.maybe_sweep(wrote).1 is Some {
                1int
            } else {
                0
            },
            SweepCall::Done => -1,
        }
    }
}

/// However calls interleave, at most one sweep is under way at a time, and the store knows whether
/// one is, as long as only sweeps that were started are ended.
pub proof fn law_one_sweep_at_a_time(s: StoreState, calls: Seq<SweepCall>)
    requires
        !s.sweeping,
        forall|i: int|
            0 <= i < calls.len() && #[trigger] calls[i] is Done ==> in_flight(s, calls.take(i)) >= 1,
    ensures
        in_flight(s, calls) == (if after_calls(s, calls).sweeping {
            1int
        } else {
            0
        }),
    decreases calls.len(),
{
    if calls.len() > 0 {
        let rest = calls.drop_last();
        assert forall|i: int| 0 <= i < rest.len() && #[trigger] rest[i] is Done implies in_flight(
            s,
            rest.take(i),
        ) >= 1 by {
            assert(calls[i] is Done);
            assert(rest.take(i) == calls.take(i));
        }
        law_one_sweep_at_a_time(s, rest);
        assert(calls.take(calls.len() - 1) == rest);
        assert(calls.last() == calls[calls.len() - 1]);
    }
}

/// How many bytes a series of blobs holds together.
pub open spec fn sum_of(wrote: Seq<u64>) -> nat
    decreases wrote.len(),
{
    if wrote.len() == 0 {
        0
    } else {
        sum_of(wrote.drop_last()) + wrote.last() as nat
    }
}

/// A store after a series of blobs has been accounted for against the backstop.
pub open spec fn after_backstop_checks(s: StoreState, wrote: Seq<u64>) -> StoreState
    decreases wrote.len(),
{
    if wrote.len() == 0 {
        s
    } else {
        after_backstop_checks(s, wrote.drop_last()).backstop_skip(wrote.last()).0
    }
}

/// The cache is measured no more often than once per eighth of the backstop: after a measurement,
/// blobs that together fall short of an eighth are decided on without another one.
pub proof fn law_measurements_are_amortised(s: StoreState, cap: u64, wrote: Seq<u64>, next: u64)
    requires
        s.backstop == Some(cap),
        s.since_sweep == 0,
        sum_of(wrote) + next < cap / 8,
    ensures
        after_backstop_checks(s, wrote) == (StoreState { since_sweep: sum_of(wrote) as u64, ..s }),
        after_backstop_checks(s, wrote).backstop_skip(next).1 == (if s.over_backstop {
            BackstopCheck::Skip
        } else {
            BackstopCheck::Admit
        }),
    decreases wrote.len(),
{
    if wrote.len() > 0 {
        law_measurements_are_amortised(s, cap, wrote.drop_last(), wrote.last());
    }
}

/// A store after a series of blobs has been accounted for against the ceiling.
pub open spec fn after_ceiling_checks(s: StoreState, wrote: Seq<u64>) -> StoreState
    decreases wrote.len(),
{
    if wrote.len() == 0 {
        s
    } else {
        after_ceiling_checks(s, wrote.drop_last()).maybe_sweep(wrote.last()).0
    }
}

/// The cache is swept no more often than once per eighth of the ceiling: after a sweep, blobs that
/// together fall short of an eighth do not lead to another one, and the one that completes the eighth
/// does.
pub proof fn law_sweeps_are_amortised(s: StoreState, max: u64, wrote: Seq<u64>, next: u64)
    requires
        s.max_bytes == Some(max),
        s.since_sweep == 0,
        !s.sweeping,
        sum_of(wrote) < max / 8 || wrote.len() == 0,
        sum_of(wrote) + next <= u64::MAX,
    ensures
        after_ceiling_checks(s, wrote) == (StoreState { since_sweep: sum_of(wrote) as u64, ..s }),
        after_ceiling_checks(s, wrote).maybe_sweep(next).1 == (if sum_of(wrote) + next < max / 8 {
            None
        } else {
            Some(max)
        }),
    decreases wrote.len(),
{
    if wrote.len() > 0 {
        law_sweeps_are_amortised(s, max, wrote.drop_last(), wrote.last());
    }
}

/// A store with a backstop after one more write of a blob of `wrote` bytes, if the cache is `size`
/// bytes large.
pub open spec fn after_backstopped_write(s: StoreState, wrote: u64, size: u64) -> StoreState {
    let (next, check) = s.backstop_skip(wrote);
    if check == BackstopCheck::Measure {
        next.measured(size)
    } else {
        next
    }
}

/// Whether that write also went to the cache.
pub open spec fn write_was_cached(s: StoreState, wrote: u64, size: u64) -> bool {
    match s.backstop_skip(wrote).1 {
        BackstopCheck::Admit => true,
        BackstopCheck::Skip => false,
        BackstopCheck::Measure => !after_backstopped_write(s, wrote, size).over_backstop,
    }
}

/// A store with a backstop after a series of writes, if the cache is `sizes[i]` bytes large at the
/// `i`-th of them.
pub open spec fn after_backstopped_writes(
    s: StoreState,
    wrote: Seq<u64>,
    sizes: Seq<u64>,
) -> StoreState
    decreases wrote.len(),
{
    if wrote.len() == 0 {
        s
    } else {
        after_backstopped_write(
            after_backstopped_writes(s, wrote.drop_last(), sizes),
            wrote.last(),
            sizes[wrote.len() - 1],
        )
    }
}

/// Whether one of those writes also went to the cache.
pub open spec fn some_write_was_cached(s: StoreState, wrote: Seq<u64>, sizes: Seq<u64>) -> bool
    decreases wrote.len(),
{
    wrote.len() > 0 && {
        ||| some_write_was_cached(s, wrote.drop_last(), sizes)
        ||| write_was_cached(
            after_backstopped_writes(s, wrote.drop_last(), sizes),
            wrote.last(),
            sizes[wrote.len() - 1],
        )
    }
}

/// A skip is not for good. Once the cache is back under the backstop, a store that had been skipping
/// admits a blob again, at the latest the one that brings what was written to an eighth of the backstop.
pub proof fn law_skips_end(s: StoreState, cap: u64, wrote: Seq<u64>, sizes: Seq<u64>)
    requires
        s.valid(),
        s.backstop == Some(cap),
        wrote.len() > 0,
        sizes.len() == wrote.len(),
        forall|i: int| 0 <= i < sizes.len() ==> #[trigger] sizes[i] <= cap,
        cap / 8 <= s.since_sweep + sum_of(wrote) <= u64::MAX,
    ensures
        some_write_was_cached(s, wrote, sizes),
{
    lemma_skips_end(s, cap, wrote, sizes);
}

/// While every blob is skipped, the counter counts them all and stays short of an eighth.
proof fn lemma_skips_end(s: StoreState, cap: u64, wrote: Seq<u64>, sizes: Seq<u64>)
    requires
        s.valid(),
        s.backstop == Some(cap),
        sizes.len() >= wrote.len(),
        forall|i: int| 0 <= i < sizes.len() ==> #[trigger] sizes[i] <= cap,
        s.since_sweep + sum_of(wrote) <= u64::MAX,
    ensures
        !some_write_was_cached(s, wrote, sizes) ==> {
            let next = after_backstopped_writes(s, wrote, sizes);
            &&& next.backstop == Some(cap)
            &&& next.since_sweep == s.since_sweep + sum_of(wrote)
            &&& wrote.len() > 0 ==> next.since_sweep < cap / 8
        },
    decreases wrote.len(),
{
    if wrote.len() > 0 {
        lemma_skips_end(s, cap, wrote.drop_last(), sizes);
        assert(sizes[wrote.len() - 1] <= cap);
    }
}

/// A history of writes through one store with a backstop: the size of the cache before each write and
/// after the last one, where a write adds at most its own size, and only if it went to the cache.
pub open spec fn backstopped_history(
    wrote: Seq<u64>,
    stores: Seq<StoreState>,
    sizes: Seq<u64>,
) -> bool {
    &&& stores.len() == wrote.len() + 1
    &&& sizes.len() == wrote.len() + 1
    &&& forall|i: int|
        #![trigger wrote[i]]
        0 <= i < wrote.len() ==> {
            &&& stores[i + 1] == after_backstopped_write(stores[i], wrote[i], sizes[i])
            &&& sizes[i + 1] <= sizes[i] + (if write_was_cached(stores[i], wrote[i], sizes[i]) {
                wrote[i] as int
            } else {
                0
            })
        }
}

/// The backstop bounds the cache: past the cap, or past the size it had to begin with, it grows by no
/// more than an eighth of the cap and one blob, however much is written.
pub proof fn law_backstop_bounds_growth(
    cap: u64,
    largest: u64,
    wrote: Seq<u64>,
    stores: Seq<StoreState>,
    sizes: Seq<u64>,
)
    requires
        backstopped_history(wrote, stores, sizes),
        stores[0] == StoreState::fresh(None, Some(cap)),
        forall|i: int| 0 <= i < wrote.len() ==> #[trigger] wrote[i] <= largest,
        cap / 8 + largest <= u64::MAX,
    ensures
        sizes.last() <= (if sizes[0] >= cap {
            sizes[0]
        } else {
            cap
        }) + largest + cap / 8,
{
    lemma_backstopped_size(cap, largest, wrote, stores, sizes, wrote.len() as int);
}

/// The bound on the size of the cache after `n` writes, in terms of the counter.
proof fn lemma_backstopped_size(
    cap: u64,
    largest: u64,
    wrote: Seq<u64>,
    stores: Seq<StoreState>,
    sizes: Seq<u64>,
    n: int,
)
    requires
        backstopped_history(wrote, stores, sizes),
        stores[0] == StoreState::fresh(None, Some(cap)),
        forall|i: int| 0 <= i < wrote.len() ==> #[trigger] wrote[i] <= largest,
        cap / 8 + largest <= u64::MAX,
        0 <= n <= wrote.len(),
    ensures
        stores[n].backstop == Some(cap),
        stores[n].valid(),
        sizes[n] <= (if sizes[0] >= cap {
            sizes[0]
        } else {
            cap
        }) + largest + (if stores[n].over_backstop {
            cap / 8
        } else {
            stores[n].since_sweep
        }),
    decreases n,
{
    if n > 0 {
        lemma_backstopped_size(cap, largest, wrote, stores, sizes, n - 1);
        assert(wrote[n - 1] <= largest);
    }
}

/// A store with a ceiling after one more write of a blob of `wrote` bytes, and after the sweep if that
/// write made one due.
pub open spec fn after_swept_write(s: StoreState, wrote: u64) -> StoreState {
    s.maybe_sweep(wrote).0.sweep_done()
}

/// A history of writes through one store with the ceiling `max`: the size of the cache before each
/// write and after the last one, where a write adds at most its own size, and a sweep that is due
/// brings a cache over the ceiling down to its target.
pub open spec fn swept_history(
    max: u64,
    wrote: Seq<u64>,
    stores: Seq<StoreState>,
    sizes: Seq<nat>,
) -> bool {
    &&& stores.len() == wrote.len() + 1
    &&& sizes.len() == wrote.len() + 1
    &&& forall|i: int|
        #![trigger wrote[i]]
        0 <= i < wrote.len() ==> {
            let grown = sizes[i] + wrote[i];
            &&& stores[i + 1] == after_swept_write(stores[i], wrote[i])
            &&& sizes[i + 1] <= grown
            &&& stores[i].maybe_sweep(wrote[i]).1 is Some && grown > max ==> sizes[i + 1]
                <= sweep_target(max)
        }
}

/// A cache that starts under the ceiling never grows past it by more than an eighth, however much is
/// written, and is back under the ceiling after every sweep.
pub proof fn law_ceiling_bounds_growth(
    max: u64,
    wrote: Seq<u64>,
    stores: Seq<StoreState>,
    sizes: Seq<nat>,
)
    requires
        swept_history(max, wrote, stores, sizes),
        stores[0] == StoreState::fresh(Some(max), None),
        sizes[0] <= max,
        forall|i: int| 0 <= i < wrote.len() ==> max / 8 + #[trigger] wrote[i] <= u64::MAX,
    ensures
        sizes.last() <= max + max / 8,
        wrote.len() > 0 && stores[wrote.len() - 1].maybe_sweep(wrote.last()).1 is Some
            ==> sizes.last() <= max,
{
    lemma_swept_size(max, wrote, stores, sizes, wrote.len() as int);
    if wrote.len() > 0 {
        let i = wrote.len() - 1;
        lemma_swept_size(max, wrote, stores, sizes, i);
        assert(wrote[i] == wrote.last());
    }
}

/// The bound on the size of the cache after `n` writes, in terms of the counter.
proof fn lemma_swept_size(
    max: u64,
    wrote: Seq<u64>,
    stores: Seq<StoreState>,
    sizes: Seq<nat>,
    n: int,
)
    requires
        swept_history(max, wrote, stores, sizes),
        stores[0] == StoreState::fresh(Some(max), None),
        sizes[0] <= max,
        forall|i: int| 0 <= i < wrote.len() ==> max / 8 + #[trigger] wrote[i] <= u64::MAX,
        0 <= n <= wrote.len(),
    ensures
        stores[n].max_bytes == Some(max),
        !stores[n].sweeping,
        stores[n].since_sweep == 0 || stores[n].since_sweep < max / 8,
        sizes[n] <= max + stores[n].since_sweep,
    decreases n,
{
    if n > 0 {
        lemma_swept_size(max, wrote, stores, sizes, n - 1);
        assert(max / 8 + wrote[n - 1] <= u64::MAX);
    }
}

} // verus!
