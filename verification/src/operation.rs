//! What the operations of the store have in common: each is a sequence of steps on the two tiers.
//!
//! An operation says by `action` what is to be done to a tier next. The caller does it and hands the
//! reply to `resume`, which yields the next step or the result. Several operations may be under way
//! at a time; they share the [`CachedBlobStore`] and nothing else, so the caller needs to hold it
//! only for the duration of a `resume`.

use crate::cache::{BackstopCheck, CachedBlobStore, StoreState};
use crate::listing::Kind;
use vstd::prelude::*;

verus! {

/// What is to be done next.
pub enum Action<K, B> {
    /// Write the bytes to the backing store.
    PutBacking { kind: Kind, key: K, bytes: B },
    /// Read from the backing store.
    GetBacking { kind: Kind, key: K },
    /// Delete from the backing store.
    DeleteBacking { kind: Kind, key: K },
    /// Look for the blob in the backing store.
    HasBacking { kind: Kind, key: K },
    /// Write the bytes to the cache.
    PutCache { kind: Kind, key: K, bytes: B },
    /// Read from the cache.
    GetCache { kind: Kind, key: K },
    /// Mark the cached blob as used just now.
    TouchCache { kind: Kind, key: K },
    /// Delete from the cache.
    DeleteCache { kind: Kind, key: K },
    /// Look for the blob in the cache.
    HasCache { kind: Kind, key: K },
    /// Find out how large the cache is.
    MeasureCache,
    /// Evict from the cache, down from the given ceiling.
    SweepCache { max_bytes: u64 },
}

/// How it went.
pub enum Event<B> {
    /// A write came back.
    Wrote(Result<(), anyhow::Error>),
    /// A read came back.
    Read(Result<B, anyhow::Error>),
    /// A touch came back.
    Touched(Result<(), anyhow::Error>),
    /// A deletion came back, with whether there was anything to delete.
    Deleted(Result<bool, anyhow::Error>),
    /// Whether the tier has the blob.
    Present(bool),
    /// The size of the cache.
    Measured(u64),
    /// A sweep is over.
    Swept,
}

/// What came of a step: a further step, or the result.
pub enum Progress<T, R> {
    Pending(T),
    Finished(R),
}

impl<'b> View for Action<&'b str, &'b [u8]> {
    type V = Action<Seq<char>, Seq<u8>>;

    open spec fn view(&self) -> Action<Seq<char>, Seq<u8>> {
        match *self {
            Action::PutBacking { kind, key, bytes } => Action::PutBacking {
                kind,
                key: key@,
                bytes: bytes@,
            },
            Action::GetBacking { kind, key } => Action::GetBacking { kind, key: key@ },
            Action::DeleteBacking { kind, key } => Action::DeleteBacking { kind, key: key@ },
            Action::HasBacking { kind, key } => Action::HasBacking { kind, key: key@ },
            Action::PutCache { kind, key, bytes } => Action::PutCache {
                kind,
                key: key@,
                bytes: bytes@,
            },
            Action::GetCache { kind, key } => Action::GetCache { kind, key: key@ },
            Action::TouchCache { kind, key } => Action::TouchCache { kind, key: key@ },
            Action::DeleteCache { kind, key } => Action::DeleteCache { kind, key: key@ },
            Action::HasCache { kind, key } => Action::HasCache { kind, key: key@ },
            Action::MeasureCache => Action::MeasureCache,
            Action::SweepCache { max_bytes } => Action::SweepCache { max_bytes },
        }
    }
}

impl View for Event<Vec<u8>> {
    type V = Event<Seq<u8>>;

    open spec fn view(&self) -> Event<Seq<u8>> {
        match *self {
            Event::Wrote(r) => Event::Wrote(r),
            Event::Read(Ok(bytes)) => Event::Read(Ok(bytes@)),
            Event::Read(Err(e)) => Event::Read(Err(e)),
            Event::Touched(r) => Event::Touched(r),
            Event::Deleted(r) => Event::Deleted(r),
            Event::Present(b) => Event::Present(b),
            Event::Measured(size) => Event::Measured(size),
            Event::Swept => Event::Swept,
        }
    }
}

/// The way of a blob into the cache, once it is known to be durable.
#[derive(Clone, Copy, Debug, PartialEq, Eq, Structural)]
pub enum Admission {
    /// The cache has to be measured before it is known whether it takes the blob.
    Measure,
    /// The cache takes the blob.
    Populate,
    /// The cache has to be swept, down from the given ceiling.
    Sweep(u64),
}

impl StoreState {
    /// The end of an admission: the ceiling is seen to, whether or not the cache took the blob.
    pub open spec fn settle(self, wrote: u64) -> (StoreState, Option<Admission>) {
        match self.maybe_sweep(wrote) {
            (next, Some(max)) => (next, Some(Admission::Sweep(max))),
            (next, None) => (next, None),
        }
    }

    /// The start of an admission.
    pub open spec fn enter(self, wrote: u64) -> (StoreState, Option<Admission>) {
        match self.backstop_skip(wrote) {
            (next, BackstopCheck::Measure) => (next, Some(Admission::Measure)),
            (next, BackstopCheck::Admit) => (next, Some(Admission::Populate)),
            (next, BackstopCheck::Skip) => next.settle(wrote),
        }
    }

    /// The next step of an admission, or `None` at its end. A cache write counts as done whether or
    /// not it succeeded. A reply to something else leaves everything as it is.
    pub open spec fn admission_step(self, wrote: u64, at: Admission, event: Event<Seq<u8>>) -> (
        StoreState,
        Option<Admission>,
    ) {
        match (at, event) {
            (Admission::Measure, Event::Measured(size)) => {
                let next = self.measured(size);
                if next.over_backstop {
                    next.settle(wrote)
                } else {
                    (next, Some(Admission::Populate))
                }
            },
            (Admission::Populate, Event::Wrote(_)) => self.settle(wrote),
            (Admission::Sweep(_), Event::Swept) => (self.sweep_done(), None),
            _ => (self, Some(at)),
        }
    }
}

/// What an admission does next.
pub open spec fn admission_action(
    at: Admission,
    kind: Kind,
    key: Seq<char>,
    bytes: Seq<u8>,
) -> Action<Seq<char>, Seq<u8>> {
    match at {
        Admission::Measure => Action::MeasureCache,
        Admission::Populate => Action::PutCache { kind, key, bytes },
        Admission::Sweep(max_bytes) => Action::SweepCache { max_bytes },
    }
}

impl CachedBlobStore {
    /// Sees to the ceiling at the end of an admission.
    fn settle(&mut self, wrote: u64) -> (r: Option<Admission>)
        ensures
            (final(self)@, r) == old(self)@.settle(wrote),
            final(self)@.valid(),
    {
        match self.maybe_sweep(wrote) {
            Some(max) => Some(Admission::Sweep(max)),
            None => None,
        }
    }

    /// Starts the way of a durable blob into the cache.
    pub(crate) fn enter(&mut self, wrote: u64) -> (r: Option<Admission>)
        ensures
            (final(self)@, r) == old(self)@.enter(wrote),
            final(self)@.valid(),
    {
        match self.backstop_skip(wrote) {
            BackstopCheck::Measure => Some(Admission::Measure),
            BackstopCheck::Admit => Some(Admission::Populate),
            BackstopCheck::Skip => self.settle(wrote),
        }
    }

    /// Takes a blob one step further on its way into the cache.
    pub(crate) fn admission_step(&mut self, wrote: u64, at: Admission, event: &Event<Vec<u8>>) -> (r: Option<
        Admission,
    >)
        ensures
            (final(self)@, r) == old(self)@.admission_step(wrote, at, event@),
    {
        match (at, event) {
            (Admission::Measure, Event::Measured(size)) => {
                if self.measured(*size) {
                    self.settle(wrote)
                } else {
                    Some(Admission::Populate)
                }
            },
            (Admission::Populate, Event::Wrote(_)) => self.settle(wrote),
            (Admission::Sweep(_), Event::Swept) => {
                self.sweep_done();
                None
            },
            _ => Some(at),
        }
    }
}

} // verus!
