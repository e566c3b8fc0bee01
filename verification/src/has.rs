//! Looking for a block: in the cache, and in the backing store if it is not there.

use crate::cache::CachedBlobStore;
use crate::listing::Kind;
use crate::operation::{Action, Event, Progress};
use vstd::prelude::*;

verus! {

/// Where a lookup stands.
#[derive(Clone, Copy, Debug, PartialEq, Eq, Structural)]
pub enum HasStage {
    /// The cache has yet to be asked.
    Cache,
    /// The cache does not have the block, and the backing store has yet to be asked.
    Backing,
}

/// A lookup of a block.
pub struct HasState {
    pub key: Seq<char>,
    pub stage: HasStage,
}

impl HasState {
    /// A lookup that has yet to start.
    pub open spec fn start(key: Seq<char>) -> HasState {
        HasState { key, stage: HasStage::Cache }
    }

    /// What is to be done next.
    pub open spec fn action(self) -> Action<Seq<char>, Seq<u8>> {
        match self.stage {
            HasStage::Cache => Action::HasCache { kind: Kind::Block, key: self.key },
            HasStage::Backing => Action::HasBacking { kind: Kind::Block, key: self.key },
        }
    }

    /// What a reply leads to. A block in the cache is enough. A reply to something else leaves
    /// everything as it is.
    pub open spec fn step(self, event: Event<Seq<u8>>) -> Progress<HasState, bool> {
        match (self.stage, event) {
            (HasStage::Cache, Event::Present(true)) => Progress::Finished(true),
            (HasStage::Cache, Event::Present(false)) => Progress::Pending(
                HasState { stage: HasStage::Backing, ..self },
            ),
            (HasStage::Backing, Event::Present(present)) => Progress::Finished(present),
            _ => Progress::Pending(self),
        }
    }
}

/// A lookup of a block in both tiers.
pub struct HasOp<'a> {
    key: &'a str,
    stage: HasStage,
}

impl<'a> View for HasOp<'a> {
    type V = HasState;

    closed spec fn view(&self) -> HasState {
        HasState { key: self.key@, stage: self.stage }
    }
}

/// The state of a lookup as its user sees it.
pub open spec fn has_progress_view(p: Progress<HasOp, bool>) -> Progress<HasState, bool> {
    match p {
        Progress::Pending(op) => Progress::Pending(op@),
        Progress::Finished(r) => Progress::Finished(r),
    }
}

impl<'a> HasOp<'a> {
    /// What is to be done next.
    pub fn action(&self) -> (r: Action<&str, &[u8]>)
        ensures
            r@ == self@.action(),
    {
        match self.stage {
            HasStage::Cache => Action::HasCache { kind: Kind::Block, key: self.key },
            HasStage::Backing => Action::HasBacking { kind: Kind::Block, key: self.key },
        }
    }

    /// Takes the reply to the last action.
    pub fn resume(self, event: Event<Vec<u8>>) -> (r: Progress<Self, bool>)
        ensures
            has_progress_view(r) == self@.step(event@),
    {
        match (self.stage, event) {
            (HasStage::Cache, Event::Present(true)) => Progress::Finished(true),
            (HasStage::Cache, Event::Present(false)) => Progress::Pending(
                HasOp { key: self.key, stage: HasStage::Backing },
            ),
            (HasStage::Backing, Event::Present(present)) => Progress::Finished(present),
            _ => Progress::Pending(self),
        }
    }
}

impl CachedBlobStore {
    /// Starts a lookup of a block.
    pub fn has_block<'a>(&self, id: &'a str) -> (r: HasOp<'a>)
        ensures
            r@ == HasState::start(id@),
    {
        HasOp { key: id, stage: HasStage::Cache }
    }
}

} // verus!
