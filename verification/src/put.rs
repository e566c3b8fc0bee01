//! Writing a blob: to the backing store first, then to the cache as far as it takes it.

use crate::cache::{CachedBlobStore, StoreState};
use crate::listing::Kind;
use crate::operation::{admission_action, Action, Admission, Event, Progress};
use vstd::prelude::*;

verus! {

/// Where a write stands.
pub enum PutStage {
    /// The backing store has yet to take the blob.
    Backing,
    /// The blob is durable and on its way into the cache.
    Admit(Admission),
}

/// A write of a blob.
pub struct PutState {
    pub kind: Kind,
    pub key: Seq<char>,
    pub bytes: Seq<u8>,
    pub stage: PutStage,
}

impl PutState {
    /// A write that has yet to start.
    pub open spec fn start(kind: Kind, key: Seq<char>, bytes: Seq<u8>) -> PutState {
        PutState { kind, key, bytes, stage: PutStage::Backing }
    }

    /// What is to be done next.
    pub open spec fn action(self) -> Action<Seq<char>, Seq<u8>> {
        match self.stage {
            PutStage::Backing => Action::PutBacking {
                kind: self.kind,
                key: self.key,
                bytes: self.bytes,
            },
            PutStage::Admit(at) => admission_action(at, self.kind, self.key, self.bytes),
        }
    }

    /// The write goes on to the given step of the admission, or ends well.
    pub open spec fn goes_on(self, at: Option<Admission>) -> Progress<
        PutState,
        Result<(), anyhow::Error>,
    > {
        match at {
            Some(at) => Progress::Pending(PutState { stage: PutStage::Admit(at), ..self }),
            None => Progress::Finished(Ok(())),
        }
    }

    /// What a reply leads to. The write fails if and only if the backing store does not take the
    /// blob. A reply to something else leaves everything as it is.
    pub open spec fn step(self, store: StoreState, event: Event<Seq<u8>>) -> (
        StoreState,
        Progress<PutState, Result<(), anyhow::Error>>,
    ) {
        let wrote = self.bytes.len() as u64;
        match (self.stage, event) {
            (PutStage::Backing, Event::Wrote(Ok(()))) => {
                let (next, at) = store.enter(wrote);
                (next, self.goes_on(at))
            },
            (PutStage::Backing, Event::Wrote(Err(e))) => (store, Progress::Finished(Err(e))),
            (PutStage::Backing, _) => (store, Progress::Pending(self)),
            (PutStage::Admit(at), _) => {
                let (next, at) = store.admission_step(wrote, at, event);
                (next, self.goes_on(at))
            },
        }
    }
}

/// A write of a blob, to the backing store first and then to the cache.
pub struct PutOp<'a> {
    kind: Kind,
    key: &'a str,
    bytes: &'a [u8],
    stage: PutStage,
}

impl<'a> View for PutOp<'a> {
    type V = PutState;

    closed spec fn view(&self) -> PutState {
        PutState { kind: self.kind, key: self.key@, bytes: self.bytes@, stage: self.stage }
    }
}

/// The state of a write as its user sees it.
pub open spec fn put_progress_view(p: Progress<PutOp, Result<(), anyhow::Error>>) -> Progress<
    PutState,
    Result<(), anyhow::Error>,
> {
    match p {
        Progress::Pending(op) => Progress::Pending(op@),
        Progress::Finished(r) => Progress::Finished(r),
    }
}

impl<'a> PutOp<'a> {
    fn start(kind: Kind, key: &'a str, bytes: &'a [u8]) -> (r: Self)
        ensures
            r@ == PutState::start(kind, key@, bytes@),
    {
        PutOp { kind, key, bytes, stage: PutStage::Backing }
    }

    /// What is to be done next.
    pub fn action(&self) -> (r: Action<&str, &[u8]>)
        ensures
            r@ == self@.action(),
    {
        match &self.stage {
            PutStage::Backing => Action::PutBacking {
                kind: self.kind,
                key: self.key,
                bytes: self.bytes,
            },
            PutStage::Admit(Admission::Measure) => Action::MeasureCache,
            PutStage::Admit(Admission::Populate) => Action::PutCache {
                kind: self.kind,
                key: self.key,
                bytes: self.bytes,
            },
            PutStage::Admit(Admission::Sweep(max)) => Action::SweepCache { max_bytes: *max },
        }
    }

    fn goes_on(self, at: Option<Admission>) -> (r: Progress<Self, Result<(), anyhow::Error>>)
        ensures
            put_progress_view(r) == self@.goes_on(at),
    {
        match at {
            Some(at) => Progress::Pending(
                PutOp {
                    kind: self.kind,
                    key: self.key,
                    bytes: self.bytes,
                    stage: PutStage::Admit(at),
                },
            ),
            None => Progress::Finished(Ok(())),
        }
    }

    /// Takes the reply to the last action.
    pub fn resume(self, store: &mut CachedBlobStore, event: Event<Vec<u8>>) -> (r: Progress<
        Self,
        Result<(), anyhow::Error>,
    >)
        ensures
            (final(store)@, put_progress_view(r)) == self@.step(old(store)@, event@),
    {
        let wrote: u64 = self.bytes.len() as u64;
        match self.stage {
            PutStage::Backing => match event {
                Event::Wrote(Ok(())) => {
                    let at = store.enter(wrote);
                    self.goes_on(at)
                },
                Event::Wrote(Err(e)) => Progress::Finished(Err(e)),
                _ => Progress::Pending(self),
            },
            PutStage::Admit(at) => {
                let at = store.admission_step(wrote, at, &event);
                self.goes_on(at)
            },
        }
    }
}

impl CachedBlobStore {
    /// Starts a write of a block.
    pub fn put_block<'a>(&self, id: &'a str, bytes: &'a [u8]) -> (r: PutOp<'a>)
        ensures
            r@ == PutState::start(Kind::Block, id@, bytes@),
    {
        PutOp::start(Kind::Block, id, bytes)
    }

    /// Starts a write of a manifest.
    pub fn put_manifest<'a>(&self, digest: &'a str, bytes: &'a [u8]) -> (r: PutOp<'a>)
        ensures
            r@ == PutState::start(Kind::Manifest, digest@, bytes@),
    {
        PutOp::start(Kind::Manifest, digest, bytes)
    }
}

} // verus!
