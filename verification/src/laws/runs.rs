//! Laws of whole operations, over every run of them: whatever the tiers answer, and whatever state
//! other operations have brought the store into by the time an answer arrives.

use crate::cache::StoreState;
use crate::delete::{DeleteStage, DeleteState};
use crate::error::says_not_found;
use crate::get::{reports_absence, GetStage, GetState};
use crate::has::{HasStage, HasState};
use crate::listing::Kind;
use crate::operation::{Action, Admission, Event, Progress};
use crate::put::{PutStage, PutState};
use vstd::prelude::*;

verus! {

/// What the two tiers hold.
pub struct Tiers {
    pub backing: Map<(Kind, Seq<char>), Seq<u8>>,
    pub cache: Map<(Kind, Seq<char>), Seq<u8>>,
}

/// One turn of an operation: the reply to its action, the store in the state in which the reply finds
/// it, and the tiers before and after the action.
pub struct Turn {
    pub store: StoreState,
    pub event: Event<Seq<u8>>,
    pub before: Tiers,
    pub after: Tiers,
}

/// Whether an event is a reply to an action.
pub open spec fn answers(action: Action<Seq<char>, Seq<u8>>, event: Event<Seq<u8>>) -> bool {
    match action {
        Action::PutBacking { .. } | Action::PutCache { .. } => event is Wrote,
        Action::GetBacking { .. } | Action::GetCache { .. } => event is Read,
        Action::DeleteBacking { .. } | Action::DeleteCache { .. } => event is Deleted,
        Action::HasBacking { .. } | Action::HasCache { .. } => event is Present,
        Action::TouchCache { .. } => event is Touched,
        Action::MeasureCache => event is Measured,
        Action::SweepCache { .. } => event is Swept,
    }
}

/// A write after the given turns.
pub open spec fn put_after(op: PutState, turns: Seq<Turn>) -> Progress<
    PutState,
    Result<(), anyhow::Error>,
>
    decreases turns.len(),
{
    if turns.len() == 0 {
        Progress::Pending(op)
    } else {
        match put_after(op, turns.drop_last()) {
            Progress::Pending(at) => at.step(turns.last().store, turns.last().event).1,
            done => done,
        }
    }
}

/// Whether the turns are those of a write: each answers the action that was pending.
pub open spec fn is_put_run(op: PutState, turns: Seq<Turn>) -> bool
    decreases turns.len(),
{
    turns.len() > 0 ==> {
        &&& is_put_run(op, turns.drop_last())
        &&& put_after(op, turns.drop_last()) matches Progress::Pending(at)
        &&& answers(at.action(), turns.last().event)
    }
}

/// A read after the given turns.
pub open spec fn get_after(op: GetState, turns: Seq<Turn>) -> Progress<
    GetState,
    Result<Seq<u8>, anyhow::Error>,
>
    decreases turns.len(),
{
    if turns.len() == 0 {
        Progress::Pending(op)
    } else {
        match get_after(op, turns.drop_last()) {
            Progress::Pending(at) => {
                let last = turns.last();
                at.step(last.store, last.event, reports_absence(last.event)).1
            },
            done => done,
        }
    }
}

/// Whether the turns are those of a read.
pub open spec fn is_get_run(op: GetState, turns: Seq<Turn>) -> bool
    decreases turns.len(),
{
    turns.len() > 0 ==> {
        &&& is_get_run(op, turns.drop_last())
        &&& get_after(op, turns.drop_last()) matches Progress::Pending(at)
        &&& answers(at.action(), turns.last().event)
    }
}

/// A deletion after the given turns.
pub open spec fn delete_after(op: DeleteState, turns: Seq<Turn>) -> Progress<
    DeleteState,
    Result<bool, anyhow::Error>,
>
    decreases turns.len(),
{
    if turns.len() == 0 {
        Progress::Pending(op)
    } else {
        match delete_after(op, turns.drop_last()) {
            Progress::Pending(at) => at.step(turns.last().event),
            done => done,
        }
    }
}

/// Whether the turns are those of a deletion.
pub open spec fn is_delete_run(op: DeleteState, turns: Seq<Turn>) -> bool
    decreases turns.len(),
{
    turns.len() > 0 ==> {
        &&& is_delete_run(op, turns.drop_last())
        &&& delete_after(op, turns.drop_last()) matches Progress::Pending(at)
        &&& answers(at.action(), turns.last().event)
    }
}

/// A lookup after the given turns.
pub open spec fn has_after(op: HasState, turns: Seq<Turn>) -> Progress<HasState, bool>
    decreases turns.len(),
{
    if turns.len() == 0 {
        Progress::Pending(op)
    } else {
        match has_after(op, turns.drop_last()) {
            Progress::Pending(at) => at.step(turns.last().event),
            done => done,
        }
    }
}

/// Whether the turns are those of a lookup.
pub open spec fn is_has_run(op: HasState, turns: Seq<Turn>) -> bool
    decreases turns.len(),
{
    turns.len() > 0 ==> {
        &&& is_has_run(op, turns.drop_last())
        &&& has_after(op, turns.drop_last()) matches Progress::Pending(at)
        &&& answers(at.action(), turns.last().event)
    }
}

/// An action by which a blob that is known to be durable is brought into the cache.
pub open spec fn admits(
    action: Action<Seq<char>, Seq<u8>>,
    kind: Kind,
    key: Seq<char>,
    bytes: Seq<u8>,
) -> bool {
    action is MeasureCache || action is SweepCache || action == (Action::PutCache {
        kind,
        key,
        bytes,
    })
}

/// How far along an admission is.
spec fn admission_rank(at: Admission) -> int {
    match at {
        Admission::Measure => 0,
        Admission::Populate => 1,
        Admission::Sweep(_) => 2,
    }
}

/// A write goes to the backing store before anything else is done, and the cache is touched only
/// once the backing store has taken the blob, which is then written to the cache unchanged if at all.
pub proof fn law_backing_is_written_first(
    kind: Kind,
    key: Seq<char>,
    bytes: Seq<u8>,
    turns: Seq<Turn>,
)
    requires
        is_put_run(PutState::start(kind, key, bytes), turns),
    ensures
        put_after(PutState::start(kind, key, bytes), turns) matches Progress::Pending(at) ==> {
            if turns.len() == 0 {
                at.action() == (Action::PutBacking { kind, key, bytes })
            } else {
                &&& turns[0].event == Event::<Seq<u8>>::Wrote(Ok(()))
                &&& admits(at.action(), kind, key, bytes)
            }
        },
{
    lemma_put_run(kind, key, bytes, turns);
}

/// A write fails if and only if the backing store refuses the blob, and then with its error and
/// without touching the cache. Nothing that happens to the cache fails it.
pub proof fn law_backing_decides_a_write(
    kind: Kind,
    key: Seq<char>,
    bytes: Seq<u8>,
    turns: Seq<Turn>,
    result: Result<(), anyhow::Error>,
)
    requires
        is_put_run(PutState::start(kind, key, bytes), turns),
        put_after(PutState::start(kind, key, bytes), turns) == Progress::<
            PutState,
            Result<(), anyhow::Error>,
        >::Finished(result),
    ensures
        turns.len() > 0,
        turns[0].event == Event::<Seq<u8>>::Wrote(result),
        result is Err ==> turns.len() == 1,
{
    lemma_put_run(kind, key, bytes, turns);
}

/// A write ends after at most four turns.
pub proof fn law_writes_end(kind: Kind, key: Seq<char>, bytes: Seq<u8>, turns: Seq<Turn>)
    requires
        is_put_run(PutState::start(kind, key, bytes), turns),
    ensures
        turns.len() <= 4,
        turns.len() == 4 ==> put_after(PutState::start(kind, key, bytes), turns) is Finished,
{
    lemma_put_run(kind, key, bytes, turns);
}

proof fn lemma_put_run(kind: Kind, key: Seq<char>, bytes: Seq<u8>, turns: Seq<Turn>)
    requires
        is_put_run(PutState::start(kind, key, bytes), turns),
    ensures
        match put_after(PutState::start(kind, key, bytes), turns) {
            Progress::Pending(at) => {
                &&& at.kind == kind && at.key == key && at.bytes == bytes
                &&& match at.stage {
                    PutStage::Backing => turns.len() == 0,
                    PutStage::Admit(step) => {
                        &&& 0 < turns.len() <= admission_rank(step) + 1
                        &&& turns[0].event == Event::<Seq<u8>>::Wrote(Ok(()))
                    },
                }
            },
            Progress::Finished(result) => {
                &&& 0 < turns.len() <= 4
                &&& turns[0].event == Event::<Seq<u8>>::Wrote(result)
                &&& result is Err ==> turns.len() == 1
            },
        },
    decreases turns.len(),
{
    if turns.len() > 0 {
        lemma_put_run(kind, key, bytes, turns.drop_last());
        if let Event::Wrote(Ok(unit)) = turns.last().event {
            assert(unit == ());
        }
    }
}

/// A read that the cache can answer is answered from it, without asking the backing store, and marks
/// the blob as used.
pub proof fn law_hits_stay_local(
    kind: Kind,
    key: Seq<char>,
    turns: Seq<Turn>,
    bytes: Seq<u8>,
)
    requires
        is_get_run(GetState::start(kind, key), turns),
        turns.len() > 0,
        turns[0].event == Event::Read(Ok(bytes)),
    ensures
        match get_after(GetState::start(kind, key), turns) {
            Progress::Pending(at) => turns.len() == 1 && at.action() == (Action::TouchCache::<
                Seq<char>,
                Seq<u8>,
            > { kind, key }),
            Progress::Finished(result) => turns.len() == 2 && result == Ok::<
                Seq<u8>,
                anyhow::Error,
            >(bytes),
        },
{
    lemma_get_run(kind, key, turns);
}

/// A read that the cache misses is answered by the backing store, and what that holds is written to
/// the cache unchanged if at all; how the cache takes it does not change the answer.
pub proof fn law_misses_read_through(kind: Kind, key: Seq<char>, turns: Seq<Turn>)
    requires
        is_get_run(GetState::start(kind, key), turns),
        turns.len() > 0,
        reports_absence(turns[0].event),
    ensures
        match get_after(GetState::start(kind, key), turns) {
            Progress::Pending(at) => if turns.len() == 1 {
                at.action() == (Action::GetBacking::<Seq<char>, Seq<u8>> { kind, key })
            } else {
                &&& turns[1].event matches Event::Read(Ok(bytes))
                &&& admits(at.action(), kind, key, bytes)
            },
            Progress::Finished(result) => turns.len() > 1 && turns[1].event == Event::Read(result),
        },
{
    lemma_get_run(kind, key, turns);
}

/// A read fails if and only if the cache fails, other than by not having the blob, or the cache does
/// not have it and the backing store does not deliver it; it fails at once, with the error of the one
/// that decided.
pub proof fn law_read_errors(
    kind: Kind,
    key: Seq<char>,
    turns: Seq<Turn>,
    error: anyhow::Error,
)
    requires
        is_get_run(GetState::start(kind, key), turns),
        get_after(GetState::start(kind, key), turns) is Finished,
    ensures
        get_after(GetState::start(kind, key), turns) == Progress::<
            GetState,
            Result<Seq<u8>, anyhow::Error>,
        >::Finished(Err(error)) <==> {
            ||| turns[0].event == Event::<Seq<u8>>::Read(Err(error)) && !says_not_found(error)
            ||| turns.len() > 1 && reports_absence(turns[0].event) && turns[1].event == Event::<
                Seq<u8>,
            >::Read(Err(error))
        },
        get_after(GetState::start(kind, key), turns) == Progress::<
            GetState,
            Result<Seq<u8>, anyhow::Error>,
        >::Finished(Err(error)) ==> turns.last().event == Event::<Seq<u8>>::Read(Err(error)),
{
    lemma_get_run(kind, key, turns);
}

/// A read reports that there is no such blob only if both tiers say so.
pub proof fn law_absence_takes_both_tiers(
    kind: Kind,
    key: Seq<char>,
    turns: Seq<Turn>,
    error: anyhow::Error,
)
    requires
        is_get_run(GetState::start(kind, key), turns),
        get_after(GetState::start(kind, key), turns) == Progress::<
            GetState,
            Result<Seq<u8>, anyhow::Error>,
        >::Finished(Err(error)),
        says_not_found(error),
    ensures
        turns.len() == 2,
        reports_absence(turns[0].event),
        reports_absence(turns[1].event),
{
    lemma_get_run(kind, key, turns);
}

/// A read returns the same whatever becomes of the cache: two reads that get the same answer from the
/// cache, and after a miss the same answer from the backing store, have the same result, whether or not
/// the touch, the cache write or a sweep succeed, and whatever the limits of the store.
pub proof fn law_the_tiers_answers_decide_a_read(
    kind: Kind,
    key: Seq<char>,
    one: Seq<Turn>,
    other: Seq<Turn>,
)
    requires
        is_get_run(GetState::start(kind, key), one),
        is_get_run(GetState::start(kind, key), other),
        get_after(GetState::start(kind, key), one) is Finished,
        get_after(GetState::start(kind, key), other) is Finished,
        one[0].event == other[0].event,
        reports_absence(one[0].event) ==> one[1].event == other[1].event,
    ensures
        get_after(GetState::start(kind, key), one) == get_after(
            GetState::start(kind, key),
            other,
        ),
{
    lemma_get_run(kind, key, one);
    lemma_get_run(kind, key, other);
}

/// A write returns the same whatever becomes of the cache: two writes that get the same answer from the
/// backing store have the same result.
pub proof fn law_the_backing_answer_decides_a_write(
    kind: Kind,
    key: Seq<char>,
    bytes: Seq<u8>,
    one: Seq<Turn>,
    other: Seq<Turn>,
)
    requires
        is_put_run(PutState::start(kind, key, bytes), one),
        is_put_run(PutState::start(kind, key, bytes), other),
        put_after(PutState::start(kind, key, bytes), one) is Finished,
        put_after(PutState::start(kind, key, bytes), other) is Finished,
        one[0].event == other[0].event,
    ensures
        put_after(PutState::start(kind, key, bytes), one) == put_after(
            PutState::start(kind, key, bytes),
            other,
        ),
{
    lemma_put_run(kind, key, bytes, one);
    lemma_put_run(kind, key, bytes, other);
}

/// A read ends after at most five turns.
pub proof fn law_reads_end(kind: Kind, key: Seq<char>, turns: Seq<Turn>)
    requires
        is_get_run(GetState::start(kind, key), turns),
    ensures
        turns.len() <= 5,
        turns.len() == 5 ==> get_after(GetState::start(kind, key), turns) is Finished,
{
    lemma_get_run(kind, key, turns);
}

proof fn lemma_get_run(kind: Kind, key: Seq<char>, turns: Seq<Turn>)
    requires
        is_get_run(GetState::start(kind, key), turns),
    ensures
        match get_after(GetState::start(kind, key), turns) {
            Progress::Pending(at) => {
                &&& at.kind == kind && at.key == key
                &&& match at.stage {
                    GetStage::Cache => turns.len() == 0,
                    GetStage::Touch(bytes) => {
                        &&& turns.len() == 1
                        &&& turns[0].event == Event::Read(Ok(bytes))
                    },
                    GetStage::Backing => turns.len() == 1 && reports_absence(turns[0].event),
                    GetStage::Admit(bytes, step) => {
                        &&& 2 <= turns.len() <= admission_rank(step) + 2
                        &&& reports_absence(turns[0].event)
                        &&& turns[1].event == Event::Read(Ok(bytes))
                    },
                }
            },
            Progress::Finished(result) => {
                ||| {
                    &&& turns.len() == 2
                    &&& result is Ok
                    &&& turns[0].event == Event::Read(result)
                }
                ||| {
                    &&& turns.len() == 1
                    &&& result is Err
                    &&& turns[0].event == Event::Read(result)
                    &&& !reports_absence(turns[0].event)
                }
                ||| {
                    &&& 2 <= turns.len() <= 5
                    &&& reports_absence(turns[0].event)
                    &&& turns[1].event == Event::Read(result)
                    &&& result is Err ==> turns.len() == 2
                }
            },
        },
    decreases turns.len(),
{
    if turns.len() > 0 {
        lemma_get_run(kind, key, turns.drop_last());
    }
}

/// Whether every turn finds a store without a ceiling, as one that was made for a pod is.
pub open spec fn without_ceiling(turns: Seq<Turn>) -> bool {
    forall|i: int| 0 <= i < turns.len() ==> (#[trigger] turns[i]).store.max_bytes is None
}

/// Neither a write nor a read of a store without a ceiling ever sweeps: a pod cannot evict what
/// another pod has cached.
pub proof fn law_pods_never_sweep(
    kind: Kind,
    key: Seq<char>,
    bytes: Seq<u8>,
    turns: Seq<Turn>,
)
    requires
        without_ceiling(turns),
    ensures
        put_after(PutState::start(kind, key, bytes), turns) matches Progress::Pending(at) ==> !(
        at.action() is SweepCache),
        get_after(GetState::start(kind, key), turns) matches Progress::Pending(at) ==> !(
        at.action() is SweepCache),
    decreases turns.len(),
{
    if turns.len() > 0 {
        assert(turns[turns.len() - 1].store.max_bytes is None);
        assert forall|i: int| 0 <= i < turns.drop_last().len() implies (
        #[trigger] turns.drop_last()[i]).store.max_bytes is None by {
            assert(turns[i].store.max_bytes is None);
        }
        law_pods_never_sweep(kind, key, bytes, turns.drop_last());
    }
}

/// Without a backstop, what the backing store has taken or delivered is written to the cache at once.
pub proof fn law_durable_blobs_are_cached(
    store: StoreState,
    put: PutState,
    get: GetState,
    bytes: Seq<u8>,
)
    requires
        store.backstop is None,
        put.stage is Backing,
        get.stage is Backing,
    ensures
        put.step(store, Event::Wrote(Ok(()))).1 matches Progress::Pending(at) && at.action() == (
        Action::PutCache { kind: put.kind, key: put.key, bytes: put.bytes }),
        get.step(store, Event::Read(Ok(bytes)), false).1 matches Progress::Pending(at)
            && at.action() == (Action::PutCache { kind: get.kind, key: get.key, bytes }),
{
}

/// Whatever a reply, an operation keeps the store valid and its ceiling and backstop what they were.
pub proof fn law_operations_keep_the_store(
    store: StoreState,
    put: PutState,
    get: GetState,
    event: Event<Seq<u8>>,
    absent: bool,
)
    requires
        store.valid(),
    ensures
        put.step(store, event).0.valid(),
        put.step(store, event).0.max_bytes == store.max_bytes,
        put.step(store, event).0.backstop == store.backstop,
        get.step(store, event, absent).0.valid(),
        get.step(store, event, absent).0.max_bytes == store.max_bytes,
        get.step(store, event, absent).0.backstop == store.backstop,
{
}

/// How a cache write or a touch went makes no difference to anything.
pub proof fn law_cache_failures_are_ignored(
    store: StoreState,
    put: PutState,
    get: GetState,
    one: Result<(), anyhow::Error>,
    other: Result<(), anyhow::Error>,
    absent: bool,
)
    ensures
        put.action() is PutCache ==> put.step(store, Event::Wrote(one)) == put.step(
            store,
            Event::Wrote(other),
        ),
        get.action() is PutCache ==> get.step(store, Event::Wrote(one), absent) == get.step(
            store,
            Event::Wrote(other),
            absent,
        ),
        get.action() is TouchCache ==> get.step(store, Event::Touched(one), absent) == get.step(
            store,
            Event::Touched(other),
            absent,
        ),
{
}

/// A deletion goes to the backing store first. Its result is that of the backing store, and if that
/// succeeded the blob is deleted from the cache too; if it failed the cache is left alone.
pub proof fn law_deletions_hit_both_tiers(kind: Kind, key: Seq<char>, turns: Seq<Turn>)
    requires
        is_delete_run(DeleteState::start(kind, key), turns),
    ensures
        match delete_after(DeleteState::start(kind, key), turns) {
            Progress::Pending(at) => if turns.len() == 0 {
                at.action() == (Action::DeleteBacking::<Seq<char>, Seq<u8>> { kind, key })
            } else {
                &&& turns.len() == 1
                &&& turns[0].event matches Event::Deleted(Ok(_))
                &&& at.action() == (Action::DeleteCache::<Seq<char>, Seq<u8>> { kind, key })
            },
            Progress::Finished(result) => {
                &&& turns.len() == (if result is Ok {
                    2int
                } else {
                    1
                })
                &&& turns[0].event == Event::<Seq<u8>>::Deleted(result)
            },
        },
{
    lemma_delete_run(kind, key, turns);
}

proof fn lemma_delete_run(kind: Kind, key: Seq<char>, turns: Seq<Turn>)
    requires
        is_delete_run(DeleteState::start(kind, key), turns),
    ensures
        match delete_after(DeleteState::start(kind, key), turns) {
            Progress::Pending(at) => {
                &&& at.kind == kind && at.key == key
                &&& match at.stage {
                    DeleteStage::Backing => turns.len() == 0,
                    DeleteStage::Cache(removed) => {
                        &&& turns.len() == 1
                        &&& turns[0].event == Event::<Seq<u8>>::Deleted(Ok(removed))
                    },
                }
            },
            Progress::Finished(result) => {
                &&& turns.len() == (if result is Ok {
                    2int
                } else {
                    1
                })
                &&& turns[0].event == Event::<Seq<u8>>::Deleted(result)
            },
        },
    decreases turns.len(),
{
    if turns.len() > 0 {
        lemma_delete_run(kind, key, turns.drop_last());
    }
}

/// A lookup asks the cache first and the backing store only if the cache does not have the block; it
/// finds the block if either has it.
pub proof fn law_lookups_try_both_tiers(key: Seq<char>, turns: Seq<Turn>)
    requires
        is_has_run(HasState::start(key), turns),
    ensures
        match has_after(HasState::start(key), turns) {
            Progress::Pending(at) => if turns.len() == 0 {
                at.action() == (Action::HasCache::<Seq<char>, Seq<u8>> { kind: Kind::Block, key })
            } else {
                &&& turns.len() == 1
                &&& turns[0].event == Event::<Seq<u8>>::Present(false)
                &&& at.action() == (Action::HasBacking::<Seq<char>, Seq<u8>> {
                    kind: Kind::Block,
                    key,
                })
            },
            Progress::Finished(true) => {
                ||| turns.len() == 1 && turns[0].event == Event::<Seq<u8>>::Present(true)
                ||| turns.len() == 2 && turns[1].event == Event::<Seq<u8>>::Present(true)
            },
            Progress::Finished(false) => {
                &&& turns.len() == 2
                &&& turns[0].event == Event::<Seq<u8>>::Present(false)
                &&& turns[1].event == Event::<Seq<u8>>::Present(false)
            },
        },
{
    lemma_has_run(key, turns);
}

proof fn lemma_has_run(key: Seq<char>, turns: Seq<Turn>)
    requires
        is_has_run(HasState::start(key), turns),
    ensures
        match has_after(HasState::start(key), turns) {
            Progress::Pending(at) => {
                &&& at.key == key
                &&& match at.stage {
                    HasStage::Cache => turns.len() == 0,
                    HasStage::Backing => turns.len() == 1 && turns[0].event == Event::<
                        Seq<u8>,
                    >::Present(false),
                }
            },
            Progress::Finished(present) => {
                ||| turns.len() == 1 && present && turns[0].event == Event::<Seq<u8>>::Present(true)
                ||| {
                    &&& turns.len() == 2
                    &&& turns[0].event == Event::<Seq<u8>>::Present(false)
                    &&& turns[1].event == Event::<Seq<u8>>::Present(present)
                }
            },
        },
    decreases turns.len(),
{
    if turns.len() > 0 {
        lemma_has_run(key, turns.drop_last());
    }
}

} // verus!
