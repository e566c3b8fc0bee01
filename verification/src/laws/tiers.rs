//! Laws of what the tiers hold: a read gives back what was written, and not what was deleted.
//!
//! A key names its content: whoever writes under a key writes the same bytes. So a cache entry, however
//! old, is what the backing store holds or held under that key.

use crate::delete::DeleteState;
use crate::error::says_not_found;
use crate::get::{reports_absence, GetStage, GetState};
use crate::has::HasState;
use crate::laws::runs::{
    delete_after, get_after, has_after, is_delete_run, is_get_run, is_has_run, is_put_run,
    law_absence_takes_both_tiers, law_backing_decides_a_write, law_backing_is_written_first,
    law_deletions_hit_both_tiers, law_lookups_try_both_tiers, law_misses_read_through,
    law_read_errors, put_after, Tiers, Turn,
};
use crate::listing::Kind;
use crate::operation::{Action, Event, Progress};
use crate::put::PutState;
use vstd::prelude::*;

verus! {

/// Whether a tier holds, under each key, the bytes that the key names.
pub open spec fn holds_content(
    tier: Map<(Kind, Seq<char>), Seq<u8>>,
    content: spec_fn((Kind, Seq<char>)) -> Seq<u8>,
) -> bool {
    forall|k: (Kind, Seq<char>)| #[trigger]
        tier.contains_key(k) ==> tier[k] == content(k)
}

/// Whether both tiers do.
pub open spec fn content_addressed(
    tiers: Tiers,
    content: spec_fn((Kind, Seq<char>)) -> Seq<u8>,
) -> bool {
    holds_content(tiers.backing, content) && holds_content(tiers.cache, content)
}

/// What an action does to the tiers, by the reply. A write or a deletion that failed may still have
/// happened. Reads and lookups report what is there, though they may fail. A sweep only removes.
pub open spec fn performed(turn: Turn, action: Action<Seq<char>, Seq<u8>>) -> bool {
    let before = turn.before;
    let after = turn.after;
    match action {
        Action::PutBacking { kind, key, bytes } => {
            let written = before.backing.insert((kind, key), bytes);
            &&& after.cache == before.cache
            &&& after.backing == written || (after.backing == before.backing && turn.event
                != Event::<Seq<u8>>::Wrote(Ok(())))
        },
        Action::PutCache { kind, key, bytes } => {
            let written = before.cache.insert((kind, key), bytes);
            &&& after.backing == before.backing
            &&& after.cache == written || (after.cache == before.cache && turn.event != Event::<
                Seq<u8>,
            >::Wrote(Ok(())))
        },
        Action::DeleteBacking { kind, key } => {
            &&& after.cache == before.cache
            &&& after.backing == before.backing.remove((kind, key)) || (after.backing
                == before.backing && !(turn.event matches Event::Deleted(Ok(_))))
            &&& turn.event matches Event::Deleted(Ok(removed)) ==> removed
                == before.backing.contains_key((kind, key))
        },
        Action::DeleteCache { kind, key } => {
            &&& after.backing == before.backing
            &&& after.cache == before.cache.remove((kind, key)) || (after.cache == before.cache
                && !(turn.event matches Event::Deleted(Ok(_))))
        },
        Action::GetBacking { kind, key } => {
            &&& after == before
            &&& turn.event matches Event::Read(Ok(bytes)) ==> before.backing.contains_key(
                (kind, key),
            ) && before.backing[(kind, key)] == bytes
            &&& reports_absence(turn.event) ==> !before.backing.contains_key((kind, key))
        },
        Action::GetCache { kind, key } => {
            &&& after == before
            &&& turn.event matches Event::Read(Ok(bytes)) ==> before.cache.contains_key((kind, key))
                && before.cache[(kind, key)] == bytes
            &&& reports_absence(turn.event) ==> !before.cache.contains_key((kind, key))
        },
        Action::HasBacking { kind, key } => {
            &&& after == before
            &&& turn.event matches Event::Present(p) ==> p == before.backing.contains_key(
                (kind, key),
            )
        },
        Action::HasCache { kind, key } => {
            &&& after == before
            &&& turn.event matches Event::Present(p) ==> p == before.cache.contains_key((kind, key))
        },
        Action::TouchCache { .. } | Action::MeasureCache => after == before,
        Action::SweepCache { .. } => {
            &&& after.backing == before.backing
            &&& after.cache.submap_of(before.cache)
        },
    }
}

/// Whether the tiers did what a write asked of them, turn by turn.
pub open spec fn put_performed(op: PutState, turns: Seq<Turn>) -> bool
    decreases turns.len(),
{
    turns.len() > 0 ==> {
        &&& put_performed(op, turns.drop_last())
        &&& put_after(op, turns.drop_last()) matches Progress::Pending(at) && performed(
            turns.last(),
            at.action(),
        )
    }
}

/// Whether the tiers did what a read asked of them, turn by turn.
pub open spec fn get_performed(op: GetState, turns: Seq<Turn>) -> bool
    decreases turns.len(),
{
    turns.len() > 0 ==> {
        &&& get_performed(op, turns.drop_last())
        &&& get_after(op, turns.drop_last()) matches Progress::Pending(at) && performed(
            turns.last(),
            at.action(),
        )
    }
}

/// Whether the tiers did what a deletion asked of them, turn by turn.
pub open spec fn delete_performed(op: DeleteState, turns: Seq<Turn>) -> bool
    decreases turns.len(),
{
    turns.len() > 0 ==> {
        &&& delete_performed(op, turns.drop_last())
        &&& delete_after(op, turns.drop_last()) matches Progress::Pending(at) && performed(
            turns.last(),
            at.action(),
        )
    }
}

/// Whether the tiers did what a lookup asked of them, turn by turn.
pub open spec fn has_performed(op: HasState, turns: Seq<Turn>) -> bool
    decreases turns.len(),
{
    turns.len() > 0 ==> {
        &&& has_performed(op, turns.drop_last())
        &&& has_after(op, turns.drop_last()) matches Progress::Pending(at) && performed(
            turns.last(),
            at.action(),
        )
    }
}

/// Whether a tier, if it has a key, has the given bytes under it.
pub open spec fn holds_only(
    tier: Map<(Kind, Seq<char>), Seq<u8>>,
    k: (Kind, Seq<char>),
    bytes: Seq<u8>,
) -> bool {
    tier.contains_key(k) ==> tier[k] == bytes
}

/// Whether every turn finds nothing but the given bytes under a key, in either tier.
pub open spec fn finds_only(turns: Seq<Turn>, k: (Kind, Seq<char>), bytes: Seq<u8>) -> bool {
    forall|i: int|
        0 <= i < turns.len() ==> {
            &&& holds_only((#[trigger] turns[i]).before.backing, k, bytes)
            &&& holds_only(turns[i].before.cache, k, bytes)
        }
}

/// What an action writes is what its key names.
pub open spec fn writes_content(
    action: Action<Seq<char>, Seq<u8>>,
    content: spec_fn((Kind, Seq<char>)) -> Seq<u8>,
) -> bool {
    match action {
        Action::PutBacking { kind, key, bytes } => bytes == content((kind, key)),
        Action::PutCache { kind, key, bytes } => bytes == content((kind, key)),
        _ => true,
    }
}

/// An action that writes only what its key names keeps the tiers content-addressed, whether or not it
/// succeeds. A sweep and a deletion do so too.
pub proof fn law_actions_keep_content(
    turn: Turn,
    action: Action<Seq<char>, Seq<u8>>,
    content: spec_fn((Kind, Seq<char>)) -> Seq<u8>,
)
    requires
        content_addressed(turn.before, content),
        performed(turn, action),
        writes_content(action, content),
    ensures
        content_addressed(turn.after, content),
{
    match action {
        Action::SweepCache { .. } => {
            assert forall|k: (Kind, Seq<char>)| #[trigger]
                turn.after.cache.contains_key(k) implies turn.after.cache[k] == content(k) by {
                assert(turn.before.cache.contains_key(k));
            }
        },
        _ => {},
    }
}

/// A write of what its key names writes nothing else to either tier.
pub proof fn law_writes_keep_content(
    kind: Kind,
    key: Seq<char>,
    bytes: Seq<u8>,
    turns: Seq<Turn>,
    content: spec_fn((Kind, Seq<char>)) -> Seq<u8>,
)
    requires
        is_put_run(PutState::start(kind, key, bytes), turns),
        bytes == content((kind, key)),
    ensures
        put_after(PutState::start(kind, key, bytes), turns) matches Progress::Pending(at)
            ==> writes_content(at.action(), content),
{
    law_backing_is_written_first(kind, key, bytes, turns);
}

/// A read delivers what its key names, from whichever tier, and writes nothing else to the cache: a
/// stale cache entry does no harm, and an evicted one is not missed.
pub proof fn law_reads_deliver_content(
    kind: Kind,
    key: Seq<char>,
    turns: Seq<Turn>,
    content: spec_fn((Kind, Seq<char>)) -> Seq<u8>,
)
    requires
        is_get_run(GetState::start(kind, key), turns),
        get_performed(GetState::start(kind, key), turns),
        finds_only(turns, (kind, key), content((kind, key))),
    ensures
        match get_after(GetState::start(kind, key), turns) {
            Progress::Pending(at) => writes_content(at.action(), content),
            Progress::Finished(Ok(bytes)) => bytes == content((kind, key)),
            Progress::Finished(Err(_)) => true,
        },
{
    lemma_read_content(kind, key, turns, content((kind, key)));
}

proof fn lemma_read_content(kind: Kind, key: Seq<char>, turns: Seq<Turn>, content: Seq<u8>)
    requires
        is_get_run(GetState::start(kind, key), turns),
        get_performed(GetState::start(kind, key), turns),
        finds_only(turns, (kind, key), content),
    ensures
        match get_after(GetState::start(kind, key), turns) {
            Progress::Pending(at) => {
                &&& at.kind == kind && at.key == key
                &&& match at.stage {
                    GetStage::Touch(bytes) => bytes == content,
                    GetStage::Admit(bytes, _) => bytes == content,
                    _ => true,
                }
            },
            Progress::Finished(Ok(bytes)) => bytes == content,
            Progress::Finished(Err(_)) => true,
        },
    decreases turns.len(),
{
    if turns.len() > 0 {
        let k = (kind, key);
        let rest = turns.drop_last();
        assert(holds_only(turns[turns.len() - 1].before.cache, k, content));
        assert forall|i: int| 0 <= i < rest.len() implies {
            &&& holds_only((#[trigger] rest[i]).before.backing, k, content)
            &&& holds_only(rest[i].before.cache, k, content)
        } by {
            assert(holds_only(turns[i].before.cache, k, content));
        }
        lemma_read_content(kind, key, rest, content);
    }
}

/// Whether nobody takes a blob out of the backing store: it is still there at each turn if it was there
/// after the one before.
pub open spec fn stays_durable(turns: Seq<Turn>, k: (Kind, Seq<char>)) -> bool {
    forall|i: int|
        0 < i < turns.len() && turns[i - 1].after.backing.contains_key(k) ==> (
        #[trigger] turns[i]).before.backing.contains_key(k)
}

/// A blob that the backing store has taken is in it throughout the rest of the write.
proof fn lemma_written_is_durable(kind: Kind, key: Seq<char>, bytes: Seq<u8>, turns: Seq<Turn>)
    requires
        is_put_run(PutState::start(kind, key, bytes), turns),
        put_performed(PutState::start(kind, key, bytes), turns),
        turns.len() > 0,
        turns[0].event == Event::<Seq<u8>>::Wrote(Ok(())),
        stays_durable(turns, (kind, key)),
    ensures
        turns.last().after.backing.contains_key((kind, key)),
    decreases turns.len(),
{
    let k = (kind, key);
    let rest = turns.drop_last();
    law_backing_is_written_first(kind, key, bytes, rest);
    if rest.len() > 0 {
        assert forall|i: int|
            0 < i < rest.len() && rest[i - 1].after.backing.contains_key(k) implies (
        #[trigger] rest[i]).before.backing.contains_key(k) by {
            assert(turns[i].before == rest[i].before);
        }
        lemma_written_is_durable(kind, key, bytes, rest);
        assert(turns[turns.len() - 1].before.backing.contains_key(k));
    }
}

/// A read gives back what was written. Once a write has succeeded, and as long as nobody puts other
/// bytes under that key, a read of it delivers the bytes of the write, even if the cache never took them
/// or has evicted them meanwhile. As long as the blob stays durable the read never says that there is
/// none: it can only fail with a tier's own failure.
pub proof fn law_reads_give_back_writes(
    kind: Kind,
    key: Seq<char>,
    bytes: Seq<u8>,
    written: Seq<Turn>,
    read: Seq<Turn>,
    result: Result<Seq<u8>, anyhow::Error>,
)
    requires
        is_put_run(PutState::start(kind, key, bytes), written),
        put_performed(PutState::start(kind, key, bytes), written),
        put_after(PutState::start(kind, key, bytes), written) == Progress::<
            PutState,
            Result<(), anyhow::Error>,
        >::Finished(Ok(())),
        is_get_run(GetState::start(kind, key), read),
        get_performed(GetState::start(kind, key), read),
        get_after(GetState::start(kind, key), read) == Progress::<
            GetState,
            Result<Seq<u8>, anyhow::Error>,
        >::Finished(result),
        finds_only(read, (kind, key), bytes),
        stays_durable(written + read, (kind, key)),
    ensures
        match result {
            Ok(delivered) => delivered == bytes,
            Err(e) => {
                &&& !says_not_found(e)
                &&& read.last().event == Event::<Seq<u8>>::Read(Err(e))
            },
        },
{
    let k = (kind, key);
    let all = written + read;
    let n = written.len() as int;
    lemma_read_content(kind, key, read, bytes);
    law_backing_decides_a_write(kind, key, bytes, written, Ok(()));
    assert forall|i: int|
        0 < i < written.len() && written[i - 1].after.backing.contains_key(k) implies (
    #[trigger] written[i]).before.backing.contains_key(k) by {
        assert(all[i - 1] == written[i - 1]);
        assert(all[i] == written[i]);
    }
    lemma_written_is_durable(kind, key, bytes, written);
    if let Err(e) = result {
        law_read_errors(kind, key, read, e);
        if says_not_found(e) {
            law_absence_takes_both_tiers(kind, key, read, e);
            lemma_first_turns(kind, key, read);
            assert(all[n - 1] == written[n - 1]);
            assert(all[n] == read[0]);
            assert(all[n + 1] == read[1]);
        }
    }
}

/// A read asks the cache in its first turn, and after a miss the backing store in its second.
proof fn lemma_first_turns(kind: Kind, key: Seq<char>, turns: Seq<Turn>)
    requires
        is_get_run(GetState::start(kind, key), turns),
        get_performed(GetState::start(kind, key), turns),
        turns.len() > 0,
    ensures
        turns[0].event is Read,
        performed(turns[0], Action::GetCache { kind, key }),
        turns.len() > 1 && reports_absence(turns[0].event) ==> performed(
            turns[1],
            Action::GetBacking { kind, key },
        ),
    decreases turns.len(),
{
    let rest = turns.drop_last();
    if rest.len() > 0 {
        lemma_first_turns(kind, key, rest);
        assert(rest[0] == turns[0]);
        if rest.len() == 1 {
            assert(turns[1] == turns.last());
            if reports_absence(turns[0].event) {
                law_misses_read_through(kind, key, rest);
            }
        } else {
            assert(rest[1] == turns[1]);
        }
    } else {
        assert(turns[0] == turns.last());
    }
}

/// Whether nobody writes a blob: a tier that did not have it after a turn does not have it at the next.
pub open spec fn stays_deleted(turns: Seq<Turn>, k: (Kind, Seq<char>)) -> bool {
    forall|i: int|
        #![trigger turns[i]]
        0 < i < turns.len() ==> {
            &&& !turns[i - 1].after.backing.contains_key(k)
                ==> !turns[i].before.backing.contains_key(k)
            &&& !turns[i - 1].after.cache.contains_key(k) ==> !turns[i].before.cache.contains_key(k)
        }
}

/// Whether the tiers that a read asks say that they do not have the blob whenever they do not, and do
/// not fail instead.
pub open spec fn absence_is_reported(read: Seq<Turn>, k: (Kind, Seq<char>)) -> bool {
    &&& !read[0].before.cache.contains_key(k) ==> reports_absence(read[0].event)
    &&& read.len() > 1 && !read[1].before.backing.contains_key(k) ==> reports_absence(
        read[1].event,
    )
}

/// A node does not go on serving what has been deleted. Once both tiers have carried out a deletion, and
/// as long as nobody writes the blob again, no read delivers it, and the read says that there is no
/// such blob unless a tier fails instead of saying so.
pub proof fn law_deleted_blobs_are_not_served(
    kind: Kind,
    key: Seq<char>,
    deleted: Seq<Turn>,
    removed: bool,
    read: Seq<Turn>,
    result: Result<Seq<u8>, anyhow::Error>,
)
    requires
        is_delete_run(DeleteState::start(kind, key), deleted),
        delete_performed(DeleteState::start(kind, key), deleted),
        delete_after(DeleteState::start(kind, key), deleted) == Progress::<
            DeleteState,
            Result<bool, anyhow::Error>,
        >::Finished(Ok(removed)),
        deleted.last().event matches Event::Deleted(Ok(_)),
        is_get_run(GetState::start(kind, key), read),
        get_performed(GetState::start(kind, key), read),
        get_after(GetState::start(kind, key), read) == Progress::<
            GetState,
            Result<Seq<u8>, anyhow::Error>,
        >::Finished(result),
        stays_deleted(deleted + read, (kind, key)),
    ensures
        result is Err,
        absence_is_reported(read, (kind, key)) ==> says_not_found(result->Err_0),
{
    let all = deleted + read;
    let one = deleted.drop_last();
    law_deletions_hit_both_tiers(kind, key, deleted);
    law_deletions_hit_both_tiers(kind, key, one);
    law_deletions_hit_both_tiers(kind, key, one.drop_last());
    assert(delete_performed(DeleteState::start(kind, key), one));
    assert(one.last() == deleted[0]);
    assert(performed(deleted[0], Action::DeleteBacking { kind, key }));
    assert(performed(deleted[1], Action::DeleteCache { kind, key }));
    assert(all[0] == deleted[0]);
    assert(all[1] == deleted[1]);
    lemma_first_turns(kind, key, read);
    assert(all[2] == read[0]);
    if let Event::Read(Err(e)) = read[0].event {
        if says_not_found(e) {
            law_misses_read_through(kind, key, read);
            assert(all[3] == read[1]);
        } else {
            law_read_errors(kind, key, read, e);
        }
    }
}

/// A lookup finds a block if and only if a tier that it asked has it, and it asks the backing store
/// whenever the cache does not.
pub proof fn law_lookups_see_both_tiers(key: Seq<char>, turns: Seq<Turn>, found: bool)
    requires
        is_has_run(HasState::start(key), turns),
        has_performed(HasState::start(key), turns),
        has_after(HasState::start(key), turns) == Progress::<HasState, bool>::Finished(found),
    ensures
        turns[0].before.cache.contains_key((Kind::Block, key)) ==> found,
        !turns[0].before.cache.contains_key((Kind::Block, key)) ==> {
            &&& turns.len() == 2
            &&& found == turns[1].before.backing.contains_key((Kind::Block, key))
        },
{
    let one = turns.drop_last();
    law_lookups_try_both_tiers(key, turns);
    law_lookups_try_both_tiers(key, one);
    if turns.len() == 2 {
        law_lookups_try_both_tiers(key, one.drop_last());
        assert(has_performed(HasState::start(key), one));
        assert(one.last() == turns[0]);
        assert(performed(turns[0], Action::HasCache { kind: Kind::Block, key }));
        assert(performed(turns[1], Action::HasBacking { kind: Kind::Block, key }));
    } else {
        assert(performed(turns[0], Action::HasCache { kind: Kind::Block, key }));
    }
}

} // verus!
