//! Laws of reads and writes that run one at a time: what each leaves of the store, and how large the
//! cache can get over any series of them.

use crate::cache::{BackstopCheck, StoreState};
use crate::eviction::sweep_target;
use crate::get::{reports_absence, GetStage, GetState};
use crate::laws::accounting::{after_backstopped_write, after_swept_write, write_was_cached};
use crate::laws::runs::{get_after, is_get_run, is_put_run, put_after, Turn};
use crate::laws::sweeps::law_target_is_nine_tenths;
use crate::listing::Kind;
use crate::operation::{Action, Admission, Event, Progress};
use crate::put::{PutStage, PutState};
use vstd::prelude::*;

verus! {

/// A write or a read.
pub enum Call {
    Put { kind: Kind, key: Seq<char>, bytes: Seq<u8> },
    Get { kind: Kind, key: Seq<char> },
}

/// What a call waits for after the given turns, or `None` once it has finished.
pub open spec fn pending(call: Call, turns: Seq<Turn>) -> Option<Action<Seq<char>, Seq<u8>>> {
    match call {
        Call::Put { kind, key, bytes } => match put_after(
            PutState::start(kind, key, bytes),
            turns,
        ) {
            Progress::Pending(at) => Some(at.action()),
            Progress::Finished(_) => None,
        },
        Call::Get { kind, key } => match get_after(GetState::start(kind, key), turns) {
            Progress::Pending(at) => Some(at.action()),
            Progress::Finished(_) => None,
        },
    }
}

/// Whether the turns are those of the call.
pub open spec fn is_run(call: Call, turns: Seq<Turn>) -> bool {
    match call {
        Call::Put { kind, key, bytes } => is_put_run(PutState::start(kind, key, bytes), turns),
        Call::Get { kind, key } => is_get_run(GetState::start(kind, key), turns),
    }
}

/// The store that the turns of a call leave, if it was `s` before them.
pub open spec fn leaves(call: Call, s: StoreState, turns: Seq<Turn>) -> StoreState {
    if turns.len() == 0 {
        s
    } else {
        let last = turns.last();
        match call {
            Call::Put { kind, key, bytes } => match put_after(
                PutState::start(kind, key, bytes),
                turns.drop_last(),
            ) {
                Progress::Pending(at) => at.step(last.store, last.event).0,
                Progress::Finished(_) => last.store,
            },
            Call::Get { kind, key } => match get_after(
                GetState::start(kind, key),
                turns.drop_last(),
            ) {
                Progress::Pending(at) => at.step(
                    last.store,
                    last.event,
                    reports_absence(last.event),
                ).0,
                Progress::Finished(_) => last.store,
            },
        }
    }
}

/// Whether a call runs alone from `s` on: each turn finds the store that the one before left.
pub open spec fn is_alone(call: Call, s: StoreState, turns: Seq<Turn>) -> bool
    decreases turns.len(),
{
    turns.len() > 0 ==> {
        &&& is_alone(call, s, turns.drop_last())
        &&& turns.last().store == leaves(call, s, turns.drop_last())
    }
}

/// Whether one of the turns wrote to the cache.
pub open spec fn populates(call: Call, turns: Seq<Turn>) -> bool
    decreases turns.len(),
{
    turns.len() > 0 && {
        ||| populates(call, turns.drop_last())
        ||| pending(call, turns.drop_last()) matches Some(Action::PutCache { .. })
    }
}

/// Whether one of the turns swept the cache.
pub open spec fn sweeps(call: Call, turns: Seq<Turn>) -> bool
    decreases turns.len(),
{
    turns.len() > 0 && {
        ||| sweeps(call, turns.drop_last())
        ||| pending(call, turns.drop_last()) matches Some(Action::SweepCache { .. })
    }
}

/// Whether every measurement among the turns finds the cache `size` bytes large.
pub open spec fn measures(turns: Seq<Turn>, size: u64) -> bool
    decreases turns.len(),
{
    turns.len() > 0 ==> {
        &&& measures(turns.drop_last(), size)
        &&& turns.last().event matches Event::Measured(m) ==> m == size
    }
}

/// The blob that a call found or made durable: the one that the backing store took, or delivered after
/// the cache had missed.
pub open spec fn durable(call: Call, turns: Seq<Turn>) -> Option<Seq<u8>> {
    match call {
        Call::Put { bytes, .. } => if turns.len() > 0 && turns[0].event is Wrote
            && turns[0].event->Wrote_0 is Ok {
            Some(bytes)
        } else {
            None
        },
        Call::Get { .. } => if turns.len() > 1 && reports_absence(turns[0].event) {
            match turns[1].event {
                Event::Read(Ok(bytes)) => Some(bytes),
                _ => None,
            }
        } else {
            None
        },
    }
}

/// A store after a blob of `wrote` bytes has been accounted for in full, with the sweep that it made
/// due, if the cache is `size` bytes large.
pub open spec fn after_durable_blob(s: StoreState, wrote: u64, size: u64) -> StoreState {
    after_swept_write(after_backstopped_write(s, wrote, size), wrote)
}

/// A store has at most one limit, and its accounts are those of that limit alone.
pub proof fn law_one_limit_accounts_for_a_blob(s: StoreState, wrote: u64, size: u64)
    requires
        s.valid(),
        !s.sweeping,
    ensures
        s.max_bytes is None ==> after_durable_blob(s, wrote, size) == after_backstopped_write(
            s,
            wrote,
            size,
        ),
        s.backstop is None ==> after_durable_blob(s, wrote, size) == after_swept_write(s, wrote),
        s.max_bytes is None || s.backstop is None,
{
}

/// A call that runs alone accounts once for the blob that it found or made durable. The blob is written
/// to the cache if and only if the backstop admits it, and the cache is swept if and only if the
/// ceiling makes a sweep due. Without such a blob nothing is accounted for, written or swept.
pub proof fn law_a_call_accounts_for_its_blob(
    call: Call,
    s: StoreState,
    turns: Seq<Turn>,
    size: u64,
)
    requires
        s.valid(),
        !s.sweeping,
        is_run(call, turns),
        is_alone(call, s, turns),
        measures(turns, size),
        pending(call, turns) is None,
    ensures
        match durable(call, turns) {
            Some(blob) => {
                let wrote = blob.len() as u64;
                &&& leaves(call, s, turns) == after_durable_blob(s, wrote, size)
                &&& populates(call, turns) <==> write_was_cached(s, wrote, size)
                &&& sweeps(call, turns) <==> s.maybe_sweep(wrote).1 is Some
            },
            None => {
                &&& leaves(call, s, turns) == s
                &&& !populates(call, turns)
                &&& !sweeps(call, turns)
            },
        },
{
    reveal(admission_alone);
    match call {
        Call::Put { kind, key, bytes } => lemma_put_alone(kind, key, bytes, s, turns, size),
        Call::Get { kind, key } => lemma_get_alone(kind, key, s, turns, size),
    }
}

/// How a call that runs alone stands with a durable blob of `wrote` bytes, at a step of its admission
/// or, without one, at the end: the store by then, and whether the cache has been written and swept.
#[verifier::opaque]
spec fn admission_alone(
    s: StoreState,
    wrote: u64,
    size: u64,
    step: Option<Admission>,
    left: StoreState,
    populated: bool,
    swept: bool,
) -> bool {
    match step {
        Some(Admission::Measure) => {
            &&& s.backstop_skip(wrote) == (left, BackstopCheck::Measure)
            &&& !populated && !swept
        },
        Some(Admission::Populate) => {
            &&& left == after_backstopped_write(s, wrote, size)
            &&& write_was_cached(s, wrote, size)
            &&& !populated && !swept
        },
        Some(Admission::Sweep(max)) => {
            &&& s.max_bytes == Some(max)
            &&& s.maybe_sweep(wrote) == (left, Some(max))
            &&& populated && !swept
        },
        None => {
            &&& left == after_durable_blob(s, wrote, size)
            &&& populated == write_was_cached(s, wrote, size)
            &&& swept == s.maybe_sweep(wrote).1 is Some
        },
    }
}

proof fn lemma_admission_starts(s: StoreState, wrote: u64, size: u64)
    requires
        s.valid(),
        !s.sweeping,
    ensures
        ({
            let (left, step) = s.enter(wrote);
            admission_alone(s, wrote, size, step, left, false, false)
        }),
{
    reveal(admission_alone);
}

proof fn lemma_admission_goes_on(
    s: StoreState,
    wrote: u64,
    size: u64,
    at: Admission,
    left: StoreState,
    populated: bool,
    swept: bool,
    event: Event<Seq<u8>>,
)
    requires
        s.valid(),
        !s.sweeping,
        admission_alone(s, wrote, size, Some(at), left, populated, swept),
        match at {
            Admission::Measure => event == Event::<Seq<u8>>::Measured(size),
            Admission::Populate => event is Wrote,
            Admission::Sweep(_) => event is Swept,
        },
    ensures
        ({
            let (next, step) = left.admission_step(wrote, at, event);
            admission_alone(
                s,
                wrote,
                size,
                step,
                next,
                populated || at is Populate,
                swept || at is Sweep,
            )
        }),
{
    reveal(admission_alone);
}

/// The same of a call after the given turns.
spec fn so_far(
    call: Call,
    s: StoreState,
    turns: Seq<Turn>,
    size: u64,
    wrote: u64,
    step: Option<Admission>,
) -> bool {
    admission_alone(
        s,
        wrote,
        size,
        step,
        leaves(call, s, turns),
        populates(call, turns),
        sweeps(call, turns),
    )
}

proof fn lemma_put_alone(
    kind: Kind,
    key: Seq<char>,
    bytes: Seq<u8>,
    s: StoreState,
    turns: Seq<Turn>,
    size: u64,
)
    requires
        s.valid(),
        !s.sweeping,
        is_put_run(PutState::start(kind, key, bytes), turns),
        is_alone(Call::Put { kind, key, bytes }, s, turns),
        measures(turns, size),
    ensures
        ({
            let call = Call::Put { kind, key, bytes };
            let wrote = bytes.len() as u64;
            match put_after(PutState::start(kind, key, bytes), turns) {
                Progress::Pending(at) => {
                    &&& at.kind == kind && at.key == key && at.bytes == bytes
                    &&& match at.stage {
                        PutStage::Backing => turns.len() == 0,
                        PutStage::Admit(step) => {
                            &&& durable(call, turns) == Some(bytes)
                            &&& so_far(call, s, turns, size, wrote, Some(step))
                        },
                    }
                },
                Progress::Finished(_) => if durable(call, turns) is Some {
                    &&& durable(call, turns) == Some(bytes)
                    &&& so_far(call, s, turns, size, wrote, None)
                } else {
                    &&& leaves(call, s, turns) == s
                    &&& !populates(call, turns) && !sweeps(call, turns)
                },
            }
        }),
    decreases turns.len(),
{
    if turns.len() > 0 {
        let one = turns.drop_last();
        lemma_put_alone(kind, key, bytes, s, one, size);
        if one.len() > 0 {
            assert(one[0] == turns[0]);
        } else {
            assert(!populates(Call::Put { kind, key, bytes }, one));
            assert(!sweeps(Call::Put { kind, key, bytes }, one));
            lemma_admission_starts(s, bytes.len() as u64, size);
        }
        if let Progress::Pending(PutState { stage: PutStage::Admit(at), .. }) = put_after(
            PutState::start(kind, key, bytes),
            one,
        ) {
            let call = Call::Put { kind, key, bytes };
            lemma_admission_goes_on(
                s,
                bytes.len() as u64,
                size,
                at,
                leaves(call, s, one),
                populates(call, one),
                sweeps(call, one),
                turns.last().event,
            );
        }
    }
}

proof fn lemma_get_alone(kind: Kind, key: Seq<char>, s: StoreState, turns: Seq<Turn>, size: u64)
    requires
        s.valid(),
        !s.sweeping,
        is_get_run(GetState::start(kind, key), turns),
        is_alone(Call::Get { kind, key }, s, turns),
        measures(turns, size),
    ensures
        ({
            let call = Call::Get { kind, key };
            let nothing_done = {
                &&& durable(call, turns) is None
                &&& leaves(call, s, turns) == s
                &&& !populates(call, turns) && !sweeps(call, turns)
            };
            match get_after(GetState::start(kind, key), turns) {
                Progress::Pending(at) => {
                    &&& at.kind == kind && at.key == key
                    &&& match at.stage {
                        GetStage::Cache => turns.len() == 0 && nothing_done,
                        GetStage::Touch(_) => {
                            &&& turns.len() == 1 && !reports_absence(turns[0].event)
                            &&& nothing_done
                        },
                        GetStage::Backing => {
                            &&& turns.len() == 1 && reports_absence(turns[0].event)
                            &&& nothing_done
                        },
                        GetStage::Admit(blob, step) => {
                            &&& durable(call, turns) == Some(blob)
                            &&& so_far(call, s, turns, size, blob.len() as u64, Some(step))
                        },
                    }
                },
                Progress::Finished(_) => match durable(call, turns) {
                    Some(blob) => so_far(call, s, turns, size, blob.len() as u64, None),
                    None => nothing_done,
                },
            }
        }),
    decreases turns.len(),
{
    if turns.len() > 0 {
        let one = turns.drop_last();
        lemma_get_alone(kind, key, s, one, size);
        if one.len() > 0 {
            assert(one[0] == turns[0]);
        }
        if one.len() > 1 {
            assert(one[1] == turns[1]);
        }
        if let Event::Read(Ok(blob)) = turns.last().event {
            lemma_admission_starts(s, blob.len() as u64, size);
        }
        if let Progress::Pending(GetState { stage: GetStage::Admit(blob, at), .. }) = get_after(
            GetState::start(kind, key),
            one,
        ) {
            let call = Call::Get { kind, key };
            lemma_admission_goes_on(
                s,
                blob.len() as u64,
                size,
                at,
                leaves(call, s, one),
                populates(call, one),
                sweeps(call, one),
                turns.last().event,
            );
        }
    }
}

/// How an action changes the size of the cache if nobody else writes to it: a cache write adds at most
/// the blob, a measurement finds the size as it is, and a sweep brings a cache over the ceiling down to
/// its target.
pub open spec fn resizes(
    action: Action<Seq<char>, Seq<u8>>,
    event: Event<Seq<u8>>,
    before: u64,
    after: u64,
) -> bool {
    match action {
        Action::PutCache { bytes, .. } => after <= before + bytes.len(),
        Action::MeasureCache => after == before && event is Measured && event->Measured_0 == before,
        Action::SweepCache { max_bytes } => {
            &&& after <= before
            &&& before > max_bytes ==> after <= sweep_target(max_bytes)
        },
        _ => after == before,
    }
}

/// Whether `sizes` are those of the cache before each turn and after the last one.
pub open spec fn sizes_follow(call: Call, turns: Seq<Turn>, sizes: Seq<u64>) -> bool
    decreases turns.len(),
{
    &&& sizes.len() == turns.len() + 1
    &&& turns.len() > 0 ==> {
        let one = sizes.drop_last();
        &&& sizes_follow(call, turns.drop_last(), one)
        &&& pending(call, turns.drop_last()) matches Some(action)
        &&& resizes(action, turns.last().event, one.last(), sizes.last())
    }
}

/// A call that was carried out, with the size of the cache throughout.
pub struct Episode {
    pub call: Call,
    pub turns: Seq<Turn>,
    pub sizes: Seq<u64>,
}

impl Episode {
    /// Whether the call ran alone from `s` on and to its end, and nobody else wrote to the cache.
    pub open spec fn runs_alone(self, s: StoreState) -> bool {
        &&& is_run(self.call, self.turns)
        &&& is_alone(self.call, s, self.turns)
        &&& pending(self.call, self.turns) is None
        &&& sizes_follow(self.call, self.turns, self.sizes)
    }

    /// The store that the call leaves.
    pub open spec fn leaves(self, s: StoreState) -> StoreState {
        leaves(self.call, s, self.turns)
    }

    /// The length of the blob that the call found or made durable, if any.
    pub open spec fn blob_len(self) -> nat {
        match durable(self.call, self.turns) {
            Some(blob) => blob.len(),
            None => 0,
        }
    }
}

/// A call that runs alone adds to the cache at most the blob that it wrote there, and if it swept the
/// cache, leaves it under the ceiling.
pub proof fn law_a_call_adds_its_blob_at_most(ep: Episode, s: StoreState)
    requires
        s.valid(),
        !s.sweeping,
        ep.runs_alone(s),
    ensures
        measures(ep.turns, ep.sizes[0]),
        ep.sizes.last() <= ep.sizes[0] + (if populates(ep.call, ep.turns) {
            ep.blob_len()
        } else {
            0
        }),
        sweeps(ep.call, ep.turns) ==> (s.max_bytes matches Some(max) && ep.sizes.last() <= max),
{
    match ep.call {
        Call::Put { kind, key, bytes } => lemma_put_sizes(kind, key, bytes, s, ep.turns, ep.sizes),
        Call::Get { kind, key } => lemma_get_sizes(kind, key, s, ep.turns, ep.sizes),
    }
}

/// The size of the cache at a step of an admission or, without one, at the end.
spec fn admission_sizes(
    call: Call,
    s: StoreState,
    turns: Seq<Turn>,
    sizes: Seq<u64>,
    wrote: nat,
    step: Option<Admission>,
) -> bool {
    match step {
        Some(Admission::Measure) | Some(Admission::Populate) => sizes.last() == sizes[0],
        Some(Admission::Sweep(_)) => sizes.last() <= sizes[0] + wrote,
        None => {
            &&& sizes.last() <= sizes[0] + (if populates(call, turns) {
                wrote
            } else {
                0
            })
            &&& sweeps(call, turns) ==> (s.max_bytes matches Some(max) && sizes.last() <= max)
        },
    }
}

proof fn lemma_put_sizes(
    kind: Kind,
    key: Seq<char>,
    bytes: Seq<u8>,
    s: StoreState,
    turns: Seq<Turn>,
    sizes: Seq<u64>,
)
    requires
        s.valid(),
        !s.sweeping,
        is_put_run(PutState::start(kind, key, bytes), turns),
        is_alone(Call::Put { kind, key, bytes }, s, turns),
        sizes_follow(Call::Put { kind, key, bytes }, turns, sizes),
    ensures
        measures(turns, sizes[0]),
        ({
            let call = Call::Put { kind, key, bytes };
            match put_after(PutState::start(kind, key, bytes), turns) {
                Progress::Pending(at) => match at.stage {
                    PutStage::Backing => sizes.last() == sizes[0],
                    PutStage::Admit(step) => admission_sizes(
                        call,
                        s,
                        turns,
                        sizes,
                        bytes.len(),
                        Some(step),
                    ),
                },
                Progress::Finished(_) => {
                    let wrote = if durable(call, turns) is Some {
                        bytes.len()
                    } else {
                        0
                    };
                    admission_sizes(call, s, turns, sizes, wrote, None)
                },
            }
        }),
    decreases turns.len(),
{
    reveal(admission_alone);
    if turns.len() > 0 {
        let one = turns.drop_last();
        lemma_put_sizes(kind, key, bytes, s, one, sizes.drop_last());
        lemma_put_alone(kind, key, bytes, s, one, sizes[0]);
        lemma_put_alone(kind, key, bytes, s, turns, sizes[0]);
        if let Some(max) = s.max_bytes {
            law_target_is_nine_tenths(max);
        }
    }
}

proof fn lemma_get_sizes(
    kind: Kind,
    key: Seq<char>,
    s: StoreState,
    turns: Seq<Turn>,
    sizes: Seq<u64>,
)
    requires
        s.valid(),
        !s.sweeping,
        is_get_run(GetState::start(kind, key), turns),
        is_alone(Call::Get { kind, key }, s, turns),
        sizes_follow(Call::Get { kind, key }, turns, sizes),
    ensures
        measures(turns, sizes[0]),
        ({
            let call = Call::Get { kind, key };
            match get_after(GetState::start(kind, key), turns) {
                Progress::Pending(at) => match at.stage {
                    GetStage::Admit(blob, step) => admission_sizes(
                        call,
                        s,
                        turns,
                        sizes,
                        blob.len(),
                        Some(step),
                    ),
                    _ => sizes.last() == sizes[0],
                },
                Progress::Finished(_) => {
                    let wrote = match durable(call, turns) {
                        Some(blob) => blob.len(),
                        None => 0,
                    };
                    admission_sizes(call, s, turns, sizes, wrote, None)
                },
            }
        }),
    decreases turns.len(),
{
    reveal(admission_alone);
    if turns.len() > 0 {
        let one = turns.drop_last();
        lemma_get_sizes(kind, key, s, one, sizes.drop_last());
        lemma_get_alone(kind, key, s, one, sizes[0]);
        lemma_get_alone(kind, key, s, turns, sizes[0]);
        if let Some(max) = s.max_bytes {
            law_target_is_nine_tenths(max);
        }
    }
}

/// The store after a series of calls.
pub open spec fn store_after(series: Seq<Episode>, s: StoreState) -> StoreState
    decreases series.len(),
{
    if series.len() == 0 {
        s
    } else {
        series.last().leaves(store_after(series.drop_last(), s))
    }
}

/// Whether the calls of a series ran one after the other from `s` on, each alone. Between two of them
/// the cache may shrink, but nobody adds to it.
pub open spec fn in_sequence(series: Seq<Episode>, s: StoreState) -> bool
    decreases series.len(),
{
    series.len() > 0 ==> {
        let before = series.drop_last();
        &&& in_sequence(before, s)
        &&& series.last().runs_alone(store_after(before, s))
        &&& before.len() > 0 ==> series.last().sizes[0] <= before.last().sizes.last()
    }
}

/// A series leaves the limits of a store as they were, and without a ceiling none of its calls sweeps.
pub proof fn lemma_series_keeps_limits(s: StoreState, series: Seq<Episode>)
    requires
        s.valid(),
        !s.sweeping,
        in_sequence(series, s),
    ensures
        store_after(series, s).valid(),
        !store_after(series, s).sweeping,
        store_after(series, s).max_bytes == s.max_bytes,
        store_after(series, s).backstop == s.backstop,
        series.len() > 0 && s.max_bytes is None ==> !sweeps(
            series.last().call,
            series.last().turns,
        ),
    decreases series.len(),
{
    if series.len() > 0 {
        let before = series.drop_last();
        let ep = series.last();
        let now = store_after(before, s);
        lemma_series_keeps_limits(s, before);
        law_a_call_adds_its_blob_at_most(ep, now);
        law_a_call_accounts_for_its_blob(ep.call, now, ep.turns, ep.sizes[0]);
    }
}

/// Whether no call of a series has a blob of more than `largest` bytes.
pub open spec fn blobs_fit(series: Seq<Episode>, largest: u64) -> bool
    decreases series.len(),
{
    series.len() > 0 ==> {
        &&& blobs_fit(series.drop_last(), largest)
        &&& series.last().blob_len() <= largest
    }
}

/// The backstop of a pod that is alone with its cache bounds it: past the cap, or past the size it had
/// to begin with, the cache grows by no more than an eighth of the cap and one blob, whatever is read
/// and written. What holds at the end of every series holds after every call.
pub proof fn law_backstop_bounds_every_series(cap: u64, largest: u64, series: Seq<Episode>)
    requires
        series.len() > 0,
        in_sequence(series, StoreState::fresh(None, Some(cap))),
        blobs_fit(series, largest),
        cap / 8 + largest <= u64::MAX,
    ensures
        series.last().sizes.last() <= (if series[0].sizes[0] >= cap {
            series[0].sizes[0]
        } else {
            cap
        }) + largest + cap / 8,
{
    lemma_backstopped_series(cap, largest, series);
}

/// The bound on the size of the cache after a series, in terms of the counter.
proof fn lemma_backstopped_series(cap: u64, largest: u64, series: Seq<Episode>)
    requires
        in_sequence(series, StoreState::fresh(None, Some(cap))),
        blobs_fit(series, largest),
        cap / 8 + largest <= u64::MAX,
    ensures
        ({
            let s = store_after(series, StoreState::fresh(None, Some(cap)));
            &&& s.backstop == Some(cap)
            &&& s.valid() && !s.sweeping
            &&& series.len() == 0 ==> s == StoreState::fresh(None, Some(cap))
            &&& series.len() > 0 ==> series.last().sizes.last() <= (if series[0].sizes[0] >= cap {
                series[0].sizes[0]
            } else {
                cap
            }) + largest + (if s.over_backstop {
                cap / 8
            } else {
                s.since_sweep
            })
        }),
    decreases series.len(),
{
    if series.len() > 0 {
        let before = series.drop_last();
        let ep = series.last();
        let s = store_after(before, StoreState::fresh(None, Some(cap)));
        lemma_backstopped_series(cap, largest, before);
        law_a_call_adds_its_blob_at_most(ep, s);
        law_a_call_accounts_for_its_blob(ep.call, s, ep.turns, ep.sizes[0]);
    }
}

/// How many bytes the durable blobs of a series hold together.
pub open spec fn blob_bytes(series: Seq<Episode>) -> nat
    decreases series.len(),
{
    if series.len() == 0 {
        0
    } else {
        blob_bytes(series.drop_last()) + series.last().blob_len()
    }
}

/// Whether one of the calls of a series wrote to the cache.
pub open spec fn some_call_populates(series: Seq<Episode>) -> bool
    decreases series.len(),
{
    series.len() > 0 && {
        ||| some_call_populates(series.drop_last())
        ||| populates(series.last().call, series.last().turns)
    }
}

/// Whether every call of a series finds the cache at most `cap` bytes large.
pub open spec fn starts_under(series: Seq<Episode>, cap: u64) -> bool
    decreases series.len(),
{
    series.len() > 0 ==> {
        &&& starts_under(series.drop_last(), cap)
        &&& series.last().sizes[0] <= cap
    }
}

/// A pod does not skip cache writes for good. While the cache is under the backstop, one of its calls
/// writes to the cache, at the latest the one whose blob brings what went by to an eighth of the
/// backstop.
pub proof fn law_skips_end_in_every_series(s: StoreState, cap: u64, series: Seq<Episode>)
    requires
        s.valid(),
        s.backstop == Some(cap),
        in_sequence(series, s),
        starts_under(series, cap),
        series.len() > 0,
        durable(series.last().call, series.last().turns) is Some,
        cap / 8 <= s.since_sweep + blob_bytes(series) <= u64::MAX,
    ensures
        some_call_populates(series),
{
    lemma_skipping_series(s, cap, series);
}

/// While every blob is skipped, the counter counts them all and stays short of an eighth.
proof fn lemma_skipping_series(s: StoreState, cap: u64, series: Seq<Episode>)
    requires
        s.valid(),
        s.backstop == Some(cap),
        in_sequence(series, s),
        starts_under(series, cap),
        s.since_sweep + blob_bytes(series) <= u64::MAX,
    ensures
        !some_call_populates(series) ==> {
            let next = store_after(series, s);
            &&& next.valid()
            &&& next.backstop == Some(cap)
            &&& next.since_sweep == s.since_sweep + blob_bytes(series)
            &&& series.len() > 0 && durable(series.last().call, series.last().turns) is Some
                ==> next.since_sweep < cap / 8
        },
    decreases series.len(),
{
    if series.len() > 0 {
        let before = series.drop_last();
        let ep = series.last();
        lemma_skipping_series(s, cap, before);
        if !some_call_populates(series) {
            let now = store_after(before, s);
            law_a_call_adds_its_blob_at_most(ep, now);
            law_a_call_accounts_for_its_blob(ep.call, now, ep.turns, ep.sizes[0]);
        }
    }
}

/// Whether the counter of a store takes in every blob of a series without wrapping around.
pub open spec fn counter_holds(series: Seq<Episode>, s: StoreState) -> bool
    decreases series.len(),
{
    series.len() > 0 ==> {
        let before = series.drop_last();
        &&& counter_holds(before, s)
        &&& store_after(before, s).since_sweep + series.last().blob_len() <= u64::MAX
    }
}

/// A cache that its store is alone with, and that starts under the ceiling, never grows past it by more
/// than an eighth, whatever is read and written, and is under the ceiling after every call that swept
/// it. What holds at the end of every series holds after every call. All that is asked of a blob is
/// what holds of every slice: that it is at most `isize::MAX` bytes long.
pub proof fn law_ceiling_bounds_every_series(max: u64, series: Seq<Episode>)
    requires
        series.len() > 0,
        in_sequence(series, StoreState::fresh(Some(max), None)),
        series[0].sizes[0] <= max,
        blobs_fit(series, isize::MAX as u64),
    ensures
        series.last().sizes.last() <= max + max / 8,
        sweeps(series.last().call, series.last().turns) ==> series.last().sizes.last() <= max,
{
    lemma_slices_are_counted(max, series);
    law_ceiling_holds_until_the_counter_wraps(max, series);
}

/// The ceiling bounds the cache just so for blobs of any length, as long as the counter does not wrap
/// around.
pub proof fn law_ceiling_holds_until_the_counter_wraps(max: u64, series: Seq<Episode>)
    requires
        series.len() > 0,
        in_sequence(series, StoreState::fresh(Some(max), None)),
        series[0].sizes[0] <= max,
        counter_holds(series, StoreState::fresh(Some(max), None)),
    ensures
        series.last().sizes.last() <= max + max / 8,
        sweeps(series.last().call, series.last().turns) ==> series.last().sizes.last() <= max,
{
    lemma_swept_series(max, series);
}

/// Slices do not make the counter wrap around: it stays short of an eighth of the ceiling between calls.
proof fn lemma_slices_are_counted(max: u64, series: Seq<Episode>)
    requires
        in_sequence(series, StoreState::fresh(Some(max), None)),
        series.len() > 0 ==> series[0].sizes[0] <= max,
        blobs_fit(series, isize::MAX as u64),
    ensures
        counter_holds(series, StoreState::fresh(Some(max), None)),
    decreases series.len(),
{
    if series.len() > 0 {
        lemma_slices_are_counted(max, series.drop_last());
        lemma_swept_series(max, series.drop_last());
    }
}

/// The bound on the size of the cache after a series, in terms of the counter.
proof fn lemma_swept_series(max: u64, series: Seq<Episode>)
    requires
        in_sequence(series, StoreState::fresh(Some(max), None)),
        series.len() > 0 ==> series[0].sizes[0] <= max,
        counter_holds(series, StoreState::fresh(Some(max), None)),
    ensures
        ({
            let s = store_after(series, StoreState::fresh(Some(max), None));
            &&& s.max_bytes == Some(max)
            &&& s.valid() && !s.sweeping
            &&& s.since_sweep == 0 || s.since_sweep < max / 8
            &&& series.len() > 0 ==> {
                let ep = series.last();
                &&& ep.sizes.last() <= max + s.since_sweep
                &&& sweeps(ep.call, ep.turns) ==> ep.sizes.last() <= max
            }
        }),
    decreases series.len(),
{
    if series.len() > 0 {
        let before = series.drop_last();
        let ep = series.last();
        let s = store_after(before, StoreState::fresh(Some(max), None));
        lemma_swept_series(max, before);
        law_a_call_adds_its_blob_at_most(ep, s);
        law_a_call_accounts_for_its_blob(ep.call, s, ep.turns, ep.sizes[0]);
    }
}

} // verus!
