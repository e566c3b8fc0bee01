//! Deleting a blob: from the backing store first, then from the cache, so that a node does not go
//! on serving a blob that has been reclaimed.

use crate::cache::CachedBlobStore;
use crate::listing::Kind;
use crate::operation::{Action, Event, Progress};
use vstd::prelude::*;

verus! {

/// Where a deletion stands.
pub enum DeleteStage {
    /// The backing store has yet to delete the blob.
    Backing,
    /// The backing store is done, with whether it had the blob; the cache has yet to delete it.
    Cache(bool),
}

/// A deletion of a blob.
pub struct DeleteState {
    pub kind: Kind,
    pub key: Seq<char>,
    pub stage: DeleteStage,
}

impl DeleteState {
    /// A deletion that has yet to start.
    pub open spec fn start(kind: Kind, key: Seq<char>) -> DeleteState {
        DeleteState { kind, key, stage: DeleteStage::Backing }
    }

    /// What is to be done next.
    pub open spec fn action(self) -> Action<Seq<char>, Seq<u8>> {
        match self.stage {
            DeleteStage::Backing => Action::DeleteBacking { kind: self.kind, key: self.key },
            DeleteStage::Cache(_) => Action::DeleteCache { kind: self.kind, key: self.key },
        }
    }

    /// What a reply leads to. The result is that of the backing store; if it fails, the cache is left
    /// alone, and how the cache fares changes nothing. A reply to something else leaves everything as
    /// it is.
    pub open spec fn step(self, event: Event<Seq<u8>>) -> Progress<
        DeleteState,
        Result<bool, anyhow::Error>,
    > {
        match (self.stage, event) {
            (DeleteStage::Backing, Event::Deleted(Ok(removed))) => Progress::Pending(
                DeleteState { stage: DeleteStage::Cache(removed), ..self },
            ),
            (DeleteStage::Backing, Event::Deleted(Err(e))) => Progress::Finished(Err(e)),
            (DeleteStage::Cache(removed), Event::Deleted(_)) => Progress::Finished(Ok(removed)),
            _ => Progress::Pending(self),
        }
    }
}

/// A deletion of a blob from both tiers.
pub struct DeleteOp<'a> {
    kind: Kind,
    key: &'a str,
    stage: DeleteStage,
}

impl<'a> View for DeleteOp<'a> {
    type V = DeleteState;

    closed spec fn view(&self) -> DeleteState {
        DeleteState { kind: self.kind, key: self.key@, stage: self.stage }
    }
}

/// The state of a deletion as its user sees it.
pub open spec fn delete_progress_view(p: Progress<DeleteOp, Result<bool, anyhow::Error>>) -> Progress<
    DeleteState,
    Result<bool, anyhow::Error>,
> {
    match p {
        Progress::Pending(op) => Progress::Pending(op@),
        Progress::Finished(r) => Progress::Finished(r),
    }
}

impl<'a> DeleteOp<'a> {
    /// What is to be done next.
    pub fn action(&self) -> (r: Action<&str, &[u8]>)
        ensures
            r@ == self@.action(),
    {
        match &self.stage {
            DeleteStage::Backing => Action::DeleteBacking { kind: self.kind, key: self.key },
            DeleteStage::Cache(_) => Action::DeleteCache { kind: self.kind, key: self.key },
        }
    }

    /// Takes the reply to the last action.
    pub fn resume(self, event: Event<Vec<u8>>) -> (r: Progress<Self, Result<bool, anyhow::Error>>)
        ensures
            delete_progress_view(r) == self@.step(event@),
    {
        match (&self.stage, event) {
            (DeleteStage::Backing, Event::Deleted(Ok(removed))) => Progress::Pending(
                DeleteOp { kind: self.kind, key: self.key, stage: DeleteStage::Cache(removed) },
            ),
            (DeleteStage::Backing, Event::Deleted(Err(e))) => Progress::Finished(Err(e)),
            (DeleteStage::Cache(removed), Event::Deleted(_)) => Progress::Finished(Ok(*removed)),
            _ => Progress::Pending(self),
        }
    }
}

impl CachedBlobStore {
    /// Starts a deletion of a block.
    pub fn delete_block<'a>(&self, id: &'a str) -> (r: DeleteOp<'a>)
        ensures
            r@ == DeleteState::start(Kind::Block, id@),
    {
        DeleteOp { kind: Kind::Block, key: id, stage: DeleteStage::Backing }
    }

    /// Starts a deletion of a manifest.
    pub fn delete_manifest<'a>(&self, digest: &'a str) -> (r: DeleteOp<'a>)
        ensures
            r@ == DeleteState::start(Kind::Manifest, digest@),
    {
        DeleteOp { kind: Kind::Manifest, key: digest, stage: DeleteStage::Backing }
    }
}

} // verus!
