//! Laws of the operations as their user sees them: which action follows on which reply, what a store is
//! made with, and what becomes of its accounts, each in terms of actions, replies and accounts.

use crate::cache::StoreState;
use crate::delete::{delete_progress_view, DeleteOp, DeleteState};
use crate::error::{says_not_found, store_error_in, StoreError};
use crate::eviction::EvictionState;
use crate::get::{get_progress_view, reports_absence, GetOp, GetStage, GetState};
use crate::has::{has_progress_view, HasOp, HasState};
use crate::laws::alone::{in_sequence, lemma_series_keeps_limits, sweeps, Episode};
use crate::laws::files::law_sweeps_start_from_what_is_there;
use crate::laws::runs::{get_after, is_get_run, is_put_run, put_after, Turn};
use crate::listing::{CacheListing, Kind};
use crate::operation::{Action, Admission, Event, Progress};
use crate::put::{put_progress_view, PutOp, PutStage, PutState};
use vstd::prelude::*;

verus! {

/// A write in full. It starts at the backing store. Once that has taken the blob, the backstop decides:
/// without one the blob goes to the cache, and with one every eighth of it that was written leads to a
/// measurement, and the last measurement stands in between. After the cache write, an eighth of the
/// ceiling that was written since the last sweep leads to a sweep down from that very ceiling, unless
/// one is under way. Whatever comes after the backing store's answer, the write ends well.
pub proof fn law_writes_in_full(kind: Kind, key: Seq<char>, bytes: Seq<u8>, turns: Seq<Turn>)
    requires
        is_put_run(PutState::start(kind, key, bytes), turns),
        bytes.len() <= u64::MAX,
        turns.len() > 0 ==> {
            let s = turns.last().store;
            !(s.max_bytes is Some && s.backstop is Some)
        },
    ensures
        PutState::start(kind, key, bytes).action() == (Action::PutBacking { kind, key, bytes }),
        turns.len() > 0 ==> {
            let at = put_after(PutState::start(kind, key, bytes), turns.drop_last())->Pending_0;
            let s = turns.last().store;
            let (left, next) = at.step(s, turns.last().event);
            match (at.action(), turns.last().event) {
                (Action::PutBacking { .. }, Event::Wrote(Err(e))) => {
                    &&& left == s
                    &&& next == Progress::<PutState, Result<(), anyhow::Error>>::Finished(Err(e))
                },
                (Action::PutBacking { .. }, Event::Wrote(Ok(_))) => match s.backstop {
                    None => left == s && next is Pending && next->Pending_0.action()
                        == (Action::PutCache { kind, key, bytes }),
                    Some(cap) => {
                        let sum = (s.since_sweep + bytes.len()) % 0x1_0000_0000_0000_0000;
                        if sum >= cap / 8 {
                            &&& left == (StoreState { since_sweep: 0, ..s })
                            &&& next is Pending && next->Pending_0.action() is MeasureCache
                        } else {
                            &&& left == (StoreState { since_sweep: sum as u64, ..s })
                            &&& s.over_backstop ==> next is Finished && next->Finished_0 is Ok
                            &&& !s.over_backstop ==> next is Pending && next->Pending_0.action()
                                == (Action::PutCache { kind, key, bytes })
                        }
                    },
                },
                (Action::MeasureCache, Event::Measured(size)) => s.backstop matches Some(cap) ==> {
                    &&& left == (StoreState { over_backstop: size > cap, ..s })
                    &&& size > cap ==> next is Finished && next->Finished_0 is Ok
                    &&& size <= cap ==> next is Pending && next->Pending_0.action()
                        == (Action::PutCache { kind, key, bytes })
                },
                (Action::PutCache { .. }, Event::Wrote(_)) => match s.max_bytes {
                    None => left == s && next is Finished && next->Finished_0 is Ok,
                    Some(max) => {
                        let sum = (s.since_sweep + bytes.len()) % 0x1_0000_0000_0000_0000;
                        if sum < max / 8 || s.sweeping {
                            &&& left == (StoreState { since_sweep: sum as u64, ..s })
                            &&& next is Finished && next->Finished_0 is Ok
                        } else {
                            &&& left == (StoreState { since_sweep: 0, sweeping: true, ..s })
                            &&& next is Pending && next->Pending_0.action()
                                == (Action::SweepCache::<Seq<char>, Seq<u8>> { max_bytes: max })
                        }
                    },
                },
                (Action::SweepCache { .. }, Event::Swept) => {
                    &&& left == (StoreState { sweeping: false, ..s })
                    &&& next is Finished && next->Finished_0 is Ok
                },
                _ => false,
            }
        },
{
    if turns.len() > 0 {
        lemma_put_stays_itself(kind, key, bytes, turns.drop_last());
    }
}

proof fn lemma_put_stays_itself(kind: Kind, key: Seq<char>, bytes: Seq<u8>, turns: Seq<Turn>)
    requires
        is_put_run(PutState::start(kind, key, bytes), turns),
    ensures
        put_after(PutState::start(kind, key, bytes), turns) matches Progress::Pending(at) ==> at.kind
            == kind && at.key == key && at.bytes == bytes,
    decreases turns.len(),
{
    if turns.len() > 0 {
        lemma_put_stays_itself(kind, key, bytes, turns.drop_last());
    }
}

/// A read in full. It starts at the cache. A blob found there is touched and delivered. An error that
/// holds `NotFound`, whatever it names, leads to the backing store, and any other error ends the read.
/// A blob that the backing store delivers is brought into the cache as a written one is, and delivered
/// whatever comes of that.
pub proof fn law_reads_in_full(kind: Kind, key: Seq<char>, turns: Seq<Turn>)
    requires
        is_get_run(GetState::start(kind, key), turns),
        turns.len() > 1 && turns[1].event is Read && turns[1].event->Read_0 is Ok
            ==> turns[1].event->Read_0->Ok_0.len() <= u64::MAX,
        turns.len() > 0 ==> {
            let s = turns.last().store;
            !(s.max_bytes is Some && s.backstop is Some)
        },
    ensures
        GetState::start(kind, key).action() == (Action::GetCache::<Seq<char>, Seq<u8>> {
            kind,
            key,
        }),
        turns.len() > 0 ==> {
            let at = get_after(GetState::start(kind, key), turns.drop_last())->Pending_0;
            let s = turns.last().store;
            let left = at.step(
                s,
                turns.last().event,
                reports_absence(turns.last().event),
            ).0;
            let next = get_after(GetState::start(kind, key), turns);
            let bytes = turns[1].event->Read_0->Ok_0;
            let delivered = Progress::<GetState, Result<Seq<u8>, anyhow::Error>>::Finished(Ok(bytes));
            match (at.action(), turns.last().event) {
                (Action::GetCache { .. }, Event::Read(Ok(_))) => {
                    &&& left == s
                    &&& next is Pending && next->Pending_0.action() == (Action::TouchCache::<
                        Seq<char>,
                        Seq<u8>,
                    > { kind, key })
                },
                (Action::GetCache { .. }, Event::Read(Err(e))) => {
                    &&& left == s
                    &&& match store_error_in(e) {
                        Some(StoreError::NotFound(_)) => next is Pending && next->Pending_0.action()
                            == (Action::GetBacking::<Seq<char>, Seq<u8>> { kind, key }),
                        _ => next == Progress::<
                            GetState,
                            Result<Seq<u8>, anyhow::Error>,
                        >::Finished(Err(e)),
                    }
                },
                (Action::TouchCache { .. }, Event::Touched(_)) => {
                    &&& left == s
                    &&& next == Progress::<GetState, Result<Seq<u8>, anyhow::Error>>::Finished(
                        turns[0].event->Read_0,
                    )
                },
                (Action::GetBacking { .. }, Event::Read(Err(e))) => {
                    &&& left == s
                    &&& next == Progress::<GetState, Result<Seq<u8>, anyhow::Error>>::Finished(Err(e))
                },
                (Action::GetBacking { .. }, Event::Read(Ok(_))) => match s.backstop {
                    None => left == s && next is Pending && next->Pending_0.action()
                        == (Action::PutCache { kind, key, bytes }),
                    Some(cap) => {
                        let sum = (s.since_sweep + bytes.len()) % 0x1_0000_0000_0000_0000;
                        if sum >= cap / 8 {
                            &&& left == (StoreState { since_sweep: 0, ..s })
                            &&& next is Pending && next->Pending_0.action() is MeasureCache
                        } else {
                            &&& left == (StoreState { since_sweep: sum as u64, ..s })
                            &&& s.over_backstop ==> next == delivered
                            &&& !s.over_backstop ==> next is Pending && next->Pending_0.action()
                                == (Action::PutCache { kind, key, bytes })
                        }
                    },
                },
                (Action::MeasureCache, Event::Measured(size)) => s.backstop matches Some(cap) ==> {
                    &&& left == (StoreState { over_backstop: size > cap, ..s })
                    &&& size > cap ==> next == delivered
                    &&& size <= cap ==> next is Pending && next->Pending_0.action()
                        == (Action::PutCache { kind, key, bytes })
                },
                (Action::PutCache { .. }, Event::Wrote(_)) => match s.max_bytes {
                    None => left == s && next == delivered,
                    Some(max) => {
                        let sum = (s.since_sweep + bytes.len()) % 0x1_0000_0000_0000_0000;
                        if sum < max / 8 || s.sweeping {
                            &&& left == (StoreState { since_sweep: sum as u64, ..s })
                            &&& next == delivered
                        } else {
                            &&& left == (StoreState { since_sweep: 0, sweeping: true, ..s })
                            &&& next is Pending && next->Pending_0.action()
                                == (Action::SweepCache::<Seq<char>, Seq<u8>> { max_bytes: max })
                        }
                    },
                },
                (Action::SweepCache { .. }, Event::Swept) => {
                    &&& left == (StoreState { sweeping: false, ..s })
                    &&& next == delivered
                },
                _ => false,
            }
        },
{
    if turns.len() > 0 {
        lemma_get_keeps_its_blob(kind, key, turns.drop_last());
        if turns.len() > 1 {
            assert(turns.drop_last()[0] == turns[0]);
        }
        if turns.len() > 2 {
            assert(turns.drop_last()[1] == turns[1]);
        }
    }
}

proof fn lemma_get_keeps_its_blob(kind: Kind, key: Seq<char>, turns: Seq<Turn>)
    requires
        is_get_run(GetState::start(kind, key), turns),
    ensures
        get_after(GetState::start(kind, key), turns) matches Progress::Pending(at) ==> {
            &&& at.kind == kind && at.key == key
            &&& match at.stage {
                GetStage::Cache => turns.len() == 0,
                GetStage::Touch(bytes) => turns.len() == 1 && turns[0].event == Event::Read(Ok(bytes)),
                GetStage::Backing => turns.len() == 1,
                GetStage::Admit(bytes, _) => turns.len() > 1 && turns[1].event == Event::Read(
                    Ok(bytes),
                ),
            }
        },
    decreases turns.len(),
{
    if turns.len() > 0 {
        lemma_get_keeps_its_blob(kind, key, turns.drop_last());
    }
}

/// A write that is under way goes on with whatever reply its tier gives, well or ill, and with whatever
/// store the reply finds.
pub proof fn law_writes_go_on(
    kind: Kind,
    key: Seq<char>,
    bytes: Seq<u8>,
    turns: Seq<Turn>,
    turn: Turn,
)
    requires
        is_put_run(PutState::start(kind, key, bytes), turns),
        put_after(PutState::start(kind, key, bytes), turns) is Pending,
        match put_after(PutState::start(kind, key, bytes), turns)->Pending_0.action() {
            Action::PutBacking { .. } | Action::PutCache { .. } => turn.event is Wrote,
            Action::MeasureCache => turn.event is Measured,
            _ => turn.event is Swept,
        },
    ensures
        is_put_run(PutState::start(kind, key, bytes), turns.push(turn)),
        put_after(PutState::start(kind, key, bytes), turns.push(turn)) == put_after(
            PutState::start(kind, key, bytes),
            turns,
        )->Pending_0.step(turn.store, turn.event).1,
        is_put_run(PutState::start(kind, key, bytes), Seq::empty()),
{
    assert(turns.push(turn).drop_last() == turns);
}

/// A read that is under way goes on with whatever reply its tier gives, well or ill, and with whatever
/// store the reply finds.
pub proof fn law_reads_go_on(kind: Kind, key: Seq<char>, turns: Seq<Turn>, turn: Turn)
    requires
        is_get_run(GetState::start(kind, key), turns),
        get_after(GetState::start(kind, key), turns) is Pending,
        match get_after(GetState::start(kind, key), turns)->Pending_0.action() {
            Action::GetCache { .. } | Action::GetBacking { .. } => turn.event is Read,
            Action::TouchCache { .. } => turn.event is Touched,
            Action::PutCache { .. } => turn.event is Wrote,
            Action::MeasureCache => turn.event is Measured,
            _ => turn.event is Swept,
        },
    ensures
        is_get_run(GetState::start(kind, key), turns.push(turn)),
        get_after(GetState::start(kind, key), turns.push(turn)) == get_after(
            GetState::start(kind, key),
            turns,
        )->Pending_0.step(turn.store, turn.event, reports_absence(turn.event)).1,
        is_get_run(GetState::start(kind, key), Seq::empty()),
{
    assert(turns.push(turn).drop_last() == turns);
}

/// An error says that a blob is absent exactly if it holds a `NotFound`, whatever that names.
pub proof fn law_not_found_is_a_miss(e: anyhow::Error)
    ensures
        says_not_found(e) <==> exists|name: String|
            store_error_in(e) == Some(StoreError::NotFound(name)),
        reports_absence(Event::Read(Err(e))) <==> exists|name: String|
            store_error_in(e) == Some(StoreError::NotFound(name)),
{
    if let Some(StoreError::NotFound(name)) = store_error_in(e) {
        assert(store_error_in(e) == Some(StoreError::NotFound(name)));
    }
}

/// Only a failed read reports absence.
pub proof fn law_only_failed_reads_report_absence(event: Event<Seq<u8>>)
    ensures
        reports_absence(event) ==> event is Read && event->Read_0 is Err,
{
}

/// A cache that answers `NotFound`, whatever it names, sends the read on to the backing store.
pub proof fn law_a_miss_asks_the_backing_store(
    kind: Kind,
    key: Seq<char>,
    turn: Turn,
    e: anyhow::Error,
    name: String,
)
    requires
        turn.event == Event::<Seq<u8>>::Read(Err(e)),
        store_error_in(e) == Some(StoreError::NotFound(name)),
    ensures
        get_after(GetState::start(kind, key), seq![turn]) matches Progress::Pending(at) && at.action()
            == (Action::GetBacking::<Seq<char>, Seq<u8>> { kind, key }),
{
    assert(seq![turn].drop_last() == Seq::<Turn>::empty());
    assert(get_after(GetState::start(kind, key), Seq::<Turn>::empty()) is Pending);
}

/// Whether a blob is taken to be absent matters only to a read whose cache has failed it: told that it
/// is, the read goes on to the backing store, and told that it is not, it ends with the error.
pub proof fn law_told_absence_decides_a_failed_cache(
    get: GetState,
    store: StoreState,
    event: Event<Seq<u8>>,
    e: anyhow::Error,
)
    ensures
        get.action() is GetCache ==> {
            let (left, next) = get.step(store, Event::Read(Err(e)), true);
            &&& left == store
            &&& next is Pending
            &&& next->Pending_0.kind == get.kind && next->Pending_0.key == get.key
            &&& next->Pending_0.action() == (Action::GetBacking::<Seq<char>, Seq<u8>> {
                kind: get.kind,
                key: get.key,
            })
            &&& get.step(store, Event::Read(Err(e)), false) == (store, Progress::<
                GetState,
                Result<Seq<u8>, anyhow::Error>,
            >::Finished(Err(e)))
        },
        !(get.action() is GetCache && event is Read && event->Read_0 is Err) ==> get.step(
            store,
            event,
            true,
        ) == get.step(store, event, false),
{
}

/// A reply that does not fit the action that is pending changes nothing: neither the operation nor the
/// store.
pub proof fn law_stray_replies_change_nothing(
    put: PutState,
    get: GetState,
    delete: DeleteState,
    has: HasState,
    store: StoreState,
    event: Event<Seq<u8>>,
    absent: bool,
)
    ensures
        (match put.action() {
            Action::PutBacking { .. } | Action::PutCache { .. } => !(event is Wrote),
            Action::MeasureCache => !(event is Measured),
            _ => !(event is Swept),
        }) ==> put.step(store, event) == (store, Progress::<
            PutState,
            Result<(), anyhow::Error>,
        >::Pending(put)),
        (match get.action() {
            Action::GetCache { .. } | Action::GetBacking { .. } => !(event is Read),
            Action::TouchCache { .. } => !(event is Touched),
            Action::PutCache { .. } => !(event is Wrote),
            Action::MeasureCache => !(event is Measured),
            _ => !(event is Swept),
        }) ==> get.step(store, event, absent) == (store, Progress::<
            GetState,
            Result<Seq<u8>, anyhow::Error>,
        >::Pending(get)),
        !(event is Deleted) ==> delete.step(event) == Progress::<
            DeleteState,
            Result<bool, anyhow::Error>,
        >::Pending(delete),
        !(event is Present) ==> has.step(event) == Progress::<HasState, bool>::Pending(has),
{
}

/// A sweep that a write or a read asks for is down from the ceiling of the store, so that a cache that
/// is no larger than its ceiling loses nothing.
pub proof fn law_sweeps_are_down_from_the_ceiling(
    kind: Kind,
    key: Seq<char>,
    bytes: Seq<u8>,
    turns: Seq<Turn>,
    ceiling: Option<u64>,
    listing: CacheListing,
)
    requires
        forall|i: int| 0 <= i < turns.len() ==> (#[trigger] turns[i]).store.max_bytes == ceiling,
    ensures
        put_after(PutState::start(kind, key, bytes), turns) matches Progress::Pending(at) ==> (
        at.action() matches Action::SweepCache { max_bytes } ==> {
            &&& ceiling == Some(max_bytes)
            &&& listing.bytes() <= ceiling->0 ==> EvictionState::start(
                listing.entries(),
                max_bytes,
            ).victim() is None
        }),
        get_after(GetState::start(kind, key), turns) matches Progress::Pending(at) ==> (
        at.action() matches Action::SweepCache { max_bytes } ==> {
            &&& ceiling == Some(max_bytes)
            &&& listing.bytes() <= ceiling->0 ==> EvictionState::start(
                listing.entries(),
                max_bytes,
            ).victim() is None
        }),
{
    lemma_sweeps_keep_the_ceiling(kind, key, bytes, turns, ceiling);
    if let Some(max) = ceiling {
        if listing.bytes() <= max {
            law_sweeps_start_from_what_is_there(listing, max);
        }
    }
}

proof fn lemma_sweeps_keep_the_ceiling(
    kind: Kind,
    key: Seq<char>,
    bytes: Seq<u8>,
    turns: Seq<Turn>,
    ceiling: Option<u64>,
)
    requires
        forall|i: int| 0 <= i < turns.len() ==> (#[trigger] turns[i]).store.max_bytes == ceiling,
    ensures
        put_after(PutState::start(kind, key, bytes), turns) matches Progress::Pending(at) ==> (
        at.stage matches PutStage::Admit(Admission::Sweep(max)) ==> ceiling == Some(max)),
        get_after(GetState::start(kind, key), turns) matches Progress::Pending(at) ==> (
        at.stage matches GetStage::Admit(_, Admission::Sweep(max)) ==> ceiling == Some(max)),
    decreases turns.len(),
{
    if turns.len() > 0 {
        let rest = turns.drop_last();
        assert(turns[turns.len() - 1].store.max_bytes == ceiling);
        assert forall|i: int| 0 <= i < rest.len() implies (#[trigger] rest[i]).store.max_bytes
            == ceiling by {
            assert(turns[i].store.max_bytes == ceiling);
        }
        lemma_sweeps_keep_the_ceiling(kind, key, bytes, rest, ceiling);
    }
}

/// A store starts with the limits it is made with and with clean accounts.
pub proof fn law_stores_start_clean(max_bytes: Option<u64>, backstop: Option<u64>)
    ensures
        StoreState::fresh(max_bytes, backstop).max_bytes == max_bytes,
        StoreState::fresh(max_bytes, backstop).backstop == backstop,
        !StoreState::fresh(max_bytes, backstop).over_backstop,
        StoreState::fresh(max_bytes, backstop).since_sweep == 0,
        !StoreState::fresh(max_bytes, backstop).sweeping,
{
}

/// Something that reaches a store: a reply to a write or a read, or one of the accounting calls.
pub enum Deed {
    Put(PutState, Event<Seq<u8>>),
    Get(GetState, Event<Seq<u8>>, bool),
    Check(u64),
    Measured(u64),
    Account(u64),
    Swept,
}

/// A store after the given deeds, in whatever order operations interleave.
pub open spec fn after_deeds(s: StoreState, deeds: Seq<Deed>) -> StoreState
    decreases deeds.len(),
{
    if deeds.len() == 0 {
        s
    } else {
        let now = after_deeds(s, deeds.drop_last());
        match deeds.last() {
            Deed::Put(op, event) => op.step(now, event).0,
            Deed::Get(op, event, absent) => op.step(now, event, absent).0,
            Deed::Check(wrote) => now.backstop_skip(wrote).0,
            Deed::Measured(size) => now.measured(size),
            Deed::Account(wrote) => now.maybe_sweep(wrote).0,
            Deed::Swept => now.sweep_done(),
        }
    }
}

/// Whatever is done with a store, its limits stay those it was made with. One that was made without a
/// ceiling never starts a sweep, whether or not it has a backstop, and one that was made without a
/// backstop never skips a cache write and never measures.
pub proof fn law_limits_are_those_at_the_start(
    max_bytes: Option<u64>,
    backstop: Option<u64>,
    deeds: Seq<Deed>,
    wrote: u64,
)
    ensures
        after_deeds(StoreState::fresh(max_bytes, backstop), deeds).max_bytes == max_bytes,
        after_deeds(StoreState::fresh(max_bytes, backstop), deeds).backstop == backstop,
        max_bytes is None ==> after_deeds(
            StoreState::fresh(max_bytes, backstop),
            deeds,
        ).maybe_sweep(wrote).1 is None,
        backstop is None ==> after_deeds(
            StoreState::fresh(max_bytes, backstop),
            deeds,
        ).backstop_skip(wrote).1 is Admit,
    decreases deeds.len(),
{
    if deeds.len() > 0 {
        law_limits_are_those_at_the_start(max_bytes, backstop, deeds.drop_last(), wrote);
    }
}

/// No series of reads and writes of a store that was made without a ceiling ever sweeps, whatever
/// backstop it was made with.
pub proof fn law_no_ceiling_no_sweep(backstop: Option<u64>, series: Seq<Episode>)
    requires
        in_sequence(series, StoreState::fresh(None, backstop)),
        series.len() > 0,
    ensures
        !sweeps(series.last().call, series.last().turns),
{
    lemma_series_keeps_limits(StoreState::fresh(None, backstop), series);
}

/// How a store accounts for a blob against its backstop: the counter takes it in, and an eighth of the
/// backstop is when the cache is measured and the counter starts over. In between a blob is skipped if
/// and only if the last measurement was over. Nothing else of the store changes.
pub proof fn law_backstop_checks(s: StoreState, cap: u64, wrote: u64)
    requires
        s.backstop == Some(cap),
    ensures
        ({
            let sum = (s.since_sweep + wrote) % 0x1_0000_0000_0000_0000;
            let (next, check) = s.backstop_skip(wrote);
            &&& check is Measure <==> sum >= cap / 8
            &&& check is Skip <==> sum < cap / 8 && s.over_backstop
            &&& next.since_sweep == (if check is Measure {
                0
            } else {
                sum
            })
            &&& next == (StoreState { since_sweep: next.since_sweep, ..s })
        }),
{
}

/// A measurement is over exactly if it finds more than the backstop, and without a backstop it changes
/// nothing.
pub proof fn law_measurements_are_remembered(s: StoreState, size: u64)
    ensures
        s.backstop matches Some(cap) ==> s.measured(size).over_backstop == (size > cap),
        s.backstop is None ==> s.measured(size) == s,
        s.measured(size) == (StoreState { over_backstop: s.measured(size).over_backstop, ..s }),
{
}

/// How a store accounts for a blob against its ceiling: the counter takes it in, and an eighth of the
/// ceiling is when a sweep down from the ceiling starts and the counter starts over, unless a sweep is
/// under way. A sweep that ends makes way for the next one and changes nothing else.
pub proof fn law_ceiling_checks(s: StoreState, max: u64, wrote: u64)
    requires
        s.max_bytes == Some(max),
    ensures
        ({
            let sum = (s.since_sweep + wrote) % 0x1_0000_0000_0000_0000;
            let (next, sweep) = s.maybe_sweep(wrote);
            &&& sweep is Some <==> sum >= max / 8 && !s.sweeping
            &&& sweep is Some ==> sweep == Some(max) && next.sweeping && next.since_sweep == 0
            &&& sweep is None ==> next.sweeping == s.sweeping && next.since_sweep == sum
            &&& next == (StoreState {
                since_sweep: next.since_sweep,
                sweeping: next.sweeping,
                ..s
            })
        }),
        s.sweep_done() == (StoreState { sweeping: false, ..s }),
{
}

/// An action is seen for what it is: its kind, its key, its bytes and its ceiling.
pub proof fn law_actions_are_seen_as_they_are<'b>(action: Action<&'b str, &'b [u8]>)
    ensures
        match action {
            Action::PutBacking { kind, key, bytes } => action@ == (Action::PutBacking {
                kind,
                key: key@,
                bytes: bytes@,
            }),
            Action::GetBacking { kind, key } => action@ == (Action::GetBacking::<
                Seq<char>,
                Seq<u8>,
            > { kind, key: key@ }),
            Action::DeleteBacking { kind, key } => action@ == (Action::DeleteBacking::<
                Seq<char>,
                Seq<u8>,
            > { kind, key: key@ }),
            Action::HasBacking { kind, key } => action@ == (Action::HasBacking::<
                Seq<char>,
                Seq<u8>,
            > { kind, key: key@ }),
            Action::PutCache { kind, key, bytes } => action@ == (Action::PutCache {
                kind,
                key: key@,
                bytes: bytes@,
            }),
            Action::GetCache { kind, key } => action@ == (Action::GetCache::<Seq<char>, Seq<u8>> {
                kind,
                key: key@,
            }),
            Action::TouchCache { kind, key } => action@ == (Action::TouchCache::<
                Seq<char>,
                Seq<u8>,
            > { kind, key: key@ }),
            Action::DeleteCache { kind, key } => action@ == (Action::DeleteCache::<
                Seq<char>,
                Seq<u8>,
            > { kind, key: key@ }),
            Action::HasCache { kind, key } => action@ == (Action::HasCache::<Seq<char>, Seq<u8>> {
                kind,
                key: key@,
            }),
            Action::MeasureCache => action@ is MeasureCache,
            Action::SweepCache { max_bytes } => action@ == (Action::SweepCache::<
                Seq<char>,
                Seq<u8>,
            > { max_bytes }),
        },
{
}

/// A reply is seen for what it is.
pub proof fn law_replies_are_seen_as_they_are(event: Event<Vec<u8>>)
    ensures
        match event {
            Event::Wrote(r) => event@ == Event::<Seq<u8>>::Wrote(r),
            Event::Read(Ok(bytes)) => event@ == Event::<Seq<u8>>::Read(Ok(bytes@)),
            Event::Read(Err(e)) => event@ == Event::<Seq<u8>>::Read(Err(e)),
            Event::Touched(r) => event@ == Event::<Seq<u8>>::Touched(r),
            Event::Deleted(r) => event@ == Event::<Seq<u8>>::Deleted(r),
            Event::Present(present) => event@ == Event::<Seq<u8>>::Present(present),
            Event::Measured(size) => event@ == Event::<Seq<u8>>::Measured(size),
            Event::Swept => event@ is Swept,
        },
{
}

/// What an operation has come to is seen for what it is: a result as that result, and an operation that
/// goes on as that operation.
pub proof fn law_results_are_seen_as_they_are<'a>(
    put: Progress<PutOp<'a>, Result<(), anyhow::Error>>,
    get: Progress<GetOp<'a>, Result<Vec<u8>, anyhow::Error>>,
    delete: Progress<DeleteOp<'a>, Result<bool, anyhow::Error>>,
    has: Progress<HasOp<'a>, bool>,
)
    ensures
        match put {
            Progress::Pending(op) => put_progress_view(put) == Progress::<
                PutState,
                Result<(), anyhow::Error>,
            >::Pending(op@),
            Progress::Finished(r) => put_progress_view(put) == Progress::<
                PutState,
                Result<(), anyhow::Error>,
            >::Finished(r),
        },
        match get {
            Progress::Pending(op) => get_progress_view(get) == Progress::<
                GetState,
                Result<Seq<u8>, anyhow::Error>,
            >::Pending(op@),
            Progress::Finished(Ok(bytes)) => get_progress_view(get) == Progress::<
                GetState,
                Result<Seq<u8>, anyhow::Error>,
            >::Finished(Ok(bytes@)),
            Progress::Finished(Err(e)) => get_progress_view(get) == Progress::<
                GetState,
                Result<Seq<u8>, anyhow::Error>,
            >::Finished(Err(e)),
        },
        match delete {
            Progress::Pending(op) => delete_progress_view(delete) == Progress::<
                DeleteState,
                Result<bool, anyhow::Error>,
            >::Pending(op@),
            Progress::Finished(r) => delete_progress_view(delete) == Progress::<
                DeleteState,
                Result<bool, anyhow::Error>,
            >::Finished(r),
        },
        match has {
            Progress::Pending(op) => has_progress_view(has) == Progress::<HasState, bool>::Pending(
                op@,
            ),
            Progress::Finished(r) => has_progress_view(has) == Progress::<HasState, bool>::Finished(r),
        },
{
}

} // verus!
