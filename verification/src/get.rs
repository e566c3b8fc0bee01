//! Reading a blob: from the cache, or through it from the backing store.

use crate::cache::{CachedBlobStore, StoreState};
use crate::error::{is_not_found, says_not_found};
use crate::listing::Kind;
use crate::operation::{admission_action, Action, Admission, Event, Progress};
use vstd::prelude::*;

verus! {

/// Where a read stands.
pub enum GetStage<B> {
    /// The cache has yet to be asked.
    Cache,
    /// The cache had the blob, which is now marked as used.
    Touch(B),
    /// The cache did not have the blob, and the backing store has yet to be asked.
    Backing,
    /// The backing store had the blob, which is on its way into the cache.
    Admit(B, Admission),
}

/// A read of a blob.
pub struct GetState {
    pub kind: Kind,
    pub key: Seq<char>,
    pub stage: GetStage<Seq<u8>>,
}

/// Whether a reply says that the blob is absent.
pub open spec fn reports_absence(event: Event<Seq<u8>>) -> bool {
    event matches Event::Read(Err(e)) && says_not_found(e)
}

impl GetState {
    /// A read that has yet to start.
    pub open spec fn start(kind: Kind, key: Seq<char>) -> GetState {
        GetState { kind, key, stage: GetStage::Cache }
    }

    /// What is to be done next.
    pub open spec fn action(self) -> Action<Seq<char>, Seq<u8>> {
        match self.stage {
            GetStage::Cache => Action::GetCache { kind: self.kind, key: self.key },
            GetStage::Touch(_) => Action::TouchCache { kind: self.kind, key: self.key },
            GetStage::Backing => Action::GetBacking { kind: self.kind, key: self.key },
            GetStage::Admit(bytes, at) => admission_action(at, self.kind, self.key, bytes),
        }
    }

    /// The read goes on to the given step of the admission, or ends with the bytes.
    pub open spec fn goes_on(self, bytes: Seq<u8>, at: Option<Admission>) -> Progress<
        GetState,
        Result<Seq<u8>, anyhow::Error>,
    > {
        match at {
            Some(at) => Progress::Pending(GetState { stage: GetStage::Admit(bytes, at), ..self }),
            None => Progress::Finished(Ok(bytes)),
        }
    }

    /// What a reply leads to, where `absent` tells whether it says that the blob is absent. A cache
    /// that has the blob answers the read; one that does not have it sends the read on to the backing
    /// store; one that fails, fails it. Neither a failed touch nor a failed cache write does. A reply
    /// to something else leaves everything as it is.
    pub open spec fn step(self, store: StoreState, event: Event<Seq<u8>>, absent: bool) -> (
        StoreState,
        Progress<GetState, Result<Seq<u8>, anyhow::Error>>,
    ) {
        match (self.stage, event) {
            (GetStage::Cache, Event::Read(Ok(bytes))) => (
                store,
                Progress::Pending(GetState { stage: GetStage::Touch(bytes), ..self }),
            ),
            (GetStage::Cache, Event::Read(Err(e))) => if absent {
                (store, Progress::Pending(GetState { stage: GetStage::Backing, ..self }))
            } else {
                (store, Progress::Finished(Err(e)))
            },
            (GetStage::Touch(bytes), Event::Touched(_)) => (store, Progress::Finished(Ok(bytes))),
            (GetStage::Backing, Event::Read(Ok(bytes))) => {
                let (next, at) = store.enter(bytes.len() as u64);
                (next, self.goes_on(bytes, at))
            },
            (GetStage::Backing, Event::Read(Err(e))) => (store, Progress::Finished(Err(e))),
            (GetStage::Admit(bytes, at), _) => {
                let (next, at) = store.admission_step(bytes.len() as u64, at, event);
                (next, self.goes_on(bytes, at))
            },
            _ => (store, Progress::Pending(self)),
        }
    }
}

/// A read of a blob, from the cache or through it.
pub struct GetOp<'a> {
    kind: Kind,
    key: &'a str,
    stage: GetStage<Vec<u8>>,
}

impl<'a> View for GetOp<'a> {
    type V = GetState;

    closed spec fn view(&self) -> GetState {
        GetState {
            kind: self.kind,
            key: self.key@,
            stage: match self.stage {
                GetStage::Cache => GetStage::Cache,
                GetStage::Touch(bytes) => GetStage::Touch(bytes@),
                GetStage::Backing => GetStage::Backing,
                GetStage::Admit(bytes, at) => GetStage::Admit(bytes@, at),
            },
        }
    }
}

/// The state of a read as its user sees it.
pub open spec fn get_progress_view(p: Progress<GetOp, Result<Vec<u8>, anyhow::Error>>) -> Progress<
    GetState,
    Result<Seq<u8>, anyhow::Error>,
> {
    match p {
        Progress::Pending(op) => Progress::Pending(op@),
        Progress::Finished(Ok(bytes)) => Progress::Finished(Ok(bytes@)),
        Progress::Finished(Err(e)) => Progress::Finished(Err(e)),
    }
}

impl<'a> GetOp<'a> {
    /// What is to be done next.
    pub fn action(&self) -> (r: Action<&str, &[u8]>)
        ensures
            r@ == self@.action(),
    {
        match &self.stage {
            GetStage::Cache => Action::GetCache { kind: self.kind, key: self.key },
            GetStage::Touch(_) => Action::TouchCache { kind: self.kind, key: self.key },
            GetStage::Backing => Action::GetBacking { kind: self.kind, key: self.key },
            GetStage::Admit(_, Admission::Measure) => Action::MeasureCache,
            GetStage::Admit(bytes, Admission::Populate) => Action::PutCache {
                kind: self.kind,
                key: self.key,
                bytes: bytes.as_slice(),
            },
            GetStage::Admit(_, Admission::Sweep(max)) => Action::SweepCache { max_bytes: *max },
        }
    }

    fn goes_on(kind: Kind, key: &'a str, bytes: Vec<u8>, at: Option<Admission>) -> (r: Progress<
        Self,
        Result<Vec<u8>, anyhow::Error>,
    >)
        ensures
            get_progress_view(r) == GetState::start(kind, key@).goes_on(bytes@, at),
    {
        match at {
            Some(at) => Progress::Pending(GetOp { kind, key, stage: GetStage::Admit(bytes, at) }),
            None => Progress::Finished(Ok(bytes)),
        }
    }

    /// Takes the reply to the last action, together with whether it says that the blob is absent.
    pub fn answer(self, store: &mut CachedBlobStore, event: Event<Vec<u8>>, absent: bool) -> (r:
        Progress<Self, Result<Vec<u8>, anyhow::Error>>)
        ensures
            (final(store)@, get_progress_view(r)) == self@.step(old(store)@, event@, absent),
    {
        let kind = self.kind;
        let key = self.key;
        match self.stage {
            GetStage::Cache => match event {
                Event::Read(Ok(bytes)) => Progress::Pending(
                    GetOp { kind, key, stage: GetStage::Touch(bytes) },
                ),
                Event::Read(Err(e)) => if absent {
                    Progress::Pending(GetOp { kind, key, stage: GetStage::Backing })
                } else {
                    Progress::Finished(Err(e))
                },
                _ => Progress::Pending(GetOp { kind, key, stage: GetStage::Cache }),
            },
            GetStage::Touch(bytes) => match event {
                Event::Touched(_) => Progress::Finished(Ok(bytes)),
                _ => Progress::Pending(GetOp { kind, key, stage: GetStage::Touch(bytes) }),
            },
            GetStage::Backing => match event {
                Event::Read(Ok(bytes)) => {
                    let at = store.enter(bytes.len() as u64);
                    Self::goes_on(kind, key, bytes, at)
                },
                Event::Read(Err(e)) => Progress::Finished(Err(e)),
                _ => Progress::Pending(GetOp { kind, key, stage: GetStage::Backing }),
            },
            GetStage::Admit(bytes, at) => {
                let at = store.admission_step(bytes.len() as u64, at, &event);
                Self::goes_on(kind, key, bytes, at)
            },
        }
    }

    /// Takes the reply to the last action.
    pub fn resume(self, store: &mut CachedBlobStore, event: Event<Vec<u8>>) -> (r: Progress<
        Self,
        Result<Vec<u8>, anyhow::Error>,
    >)
        ensures
            (final(store)@, get_progress_view(r)) == self@.step(
                old(store)@,
                event@,
                reports_absence(event@),
            ),
    {
        let absent = match &event {
            Event::Read(Err(e)) => is_not_found(e),
            _ => false,
        };
        self.answer(store, event, absent)
    }
}

impl CachedBlobStore {
    /// Starts a read through the cache.
    pub fn get_through<'a>(&self, kind: Kind, key: &'a str) -> (r: GetOp<'a>)
        ensures
            r@ == GetState::start(kind, key@),
    {
        GetOp { kind, key, stage: GetStage::Cache }
    }

    /// Starts a read of a block.
    pub fn get_block<'a>(&self, id: &'a str) -> (r: GetOp<'a>)
        ensures
            r@ == GetState::start(Kind::Block, id@),
    {
        self.get_through(Kind::Block, id)
    }

    /// Starts a read of a manifest.
    pub fn get_manifest<'a>(&self, digest: &'a str) -> (r: GetOp<'a>)
        ensures
            r@ == GetState::start(Kind::Manifest, digest@),
    {
        self.get_through(Kind::Manifest, digest)
    }
}

} // verus!
