//! The accounting of the cache tier: when a cache write is skipped, and when the cache is swept.

use vstd::prelude::*;

pub use crate::eviction::evict_to_limit;

verus! {

/// What a store keeps account of.
pub struct StoreState {
    /// Byte ceiling of the cache tier; `None` if the store never sweeps.
    pub max_bytes: Option<u64>,
    /// Size past which cache writes are skipped; `None` if they never are.
    pub backstop: Option<u64>,
    /// Whether the last measurement found the cache over the backstop.
    pub over_backstop: bool,
    /// Bytes written since the last sweep or measurement.
    pub since_sweep: u64,
    /// Whether a sweep is under way.
    pub sweeping: bool,
}

/// Whether a blob may be written to the cache.
#[derive(Clone, Copy, Debug, PartialEq, Eq, Structural)]
pub enum BackstopCheck {
    /// Write it.
    Admit,
    /// Leave it out.
    Skip,
    /// The cache has to be measured first.
    Measure,
}

/// The sum of two 64-bit counters, which wraps around.
pub open spec fn wrapping_sum(a: u64, b: u64) -> u64 {
    if a + b > u64::MAX {
        (a + b - u64::MAX - 1) as u64
    } else {
        (a + b) as u64
    }
}

impl StoreState {
    /// A store on which nothing has been done yet.
    pub open spec fn fresh(max_bytes: Option<u64>, backstop: Option<u64>) -> StoreState {
        StoreState { max_bytes, backstop, over_backstop: false, since_sweep: 0, sweeping: false }
    }

    /// What holds of every store: it sweeps or it has a backstop, never both, since the two share
    /// one counter; only the one that is set has been acted on; and under a backstop fewer bytes than
    /// an eighth of it have gone by since the cache was last measured.
    pub open spec fn valid(self) -> bool {
        &&& !(self.max_bytes is Some && self.backstop is Some)
        &&& self.sweeping ==> self.max_bytes is Some
        &&& self.over_backstop ==> self.backstop is Some
        &&& self.backstop matches Some(cap) ==> self.since_sweep == 0 || self.since_sweep < cap / 8
    }

    /// Accounts for a blob of `wrote` bytes against the backstop, and says whether the cache may have
    /// it. Once an eighth of the backstop has been written the cache is measured anew; until then the
    /// last measurement stands.
    pub open spec fn backstop_skip(self, wrote: u64) -> (StoreState, BackstopCheck) {
        match self.backstop {
            None => (self, BackstopCheck::Admit),
            Some(cap) => if wrapping_sum(self.since_sweep, wrote) >= cap / 8 {
                (StoreState { since_sweep: 0, ..self }, BackstopCheck::Measure)
            } else {
                (
                    StoreState { since_sweep: wrapping_sum(self.since_sweep, wrote), ..self },
                    if self.over_backstop {
                        BackstopCheck::Skip
                    } else {
                        BackstopCheck::Admit
                    },
                )
            },
        }
    }

    /// The store once the cache has been found to be `size` bytes large.
    pub open spec fn measured(self, size: u64) -> StoreState {
        match self.backstop {
            None => self,
            Some(cap) => StoreState { over_backstop: size > cap, ..self },
        }
    }

    /// Accounts for a blob of `wrote` bytes against the ceiling, and says to what ceiling the cache
    /// has to be swept, if it has to. A sweep is due once an eighth of the ceiling has been written,
    /// and waits while another one is under way.
    pub open spec fn maybe_sweep(self, wrote: u64) -> (StoreState, Option<u64>) {
        match self.max_bytes {
            None => (self, None),
            Some(max) => {
                let sum = wrapping_sum(self.since_sweep, wrote);
                if sum < max / 8 || self.sweeping {
                    (StoreState { since_sweep: sum, ..self }, None)
                } else {
                    (StoreState { since_sweep: 0, sweeping: true, ..self }, Some(max))
                }
            },
        }
    }

    /// The store once a sweep is over.
    pub open spec fn sweep_done(self) -> StoreState {
        StoreState { sweeping: false, ..self }
    }
}

/// A durable store with a node-local cache in front of it, as far as it keeps account: the tiers
/// themselves are the caller's. The cache is never authoritative.
pub struct CachedBlobStore {
    max_bytes: Option<u64>,
    backstop: Option<u64>,
    over_backstop: bool,
    since_sweep: u64,
    sweeping: bool,
}

impl View for CachedBlobStore {
    type V = StoreState;

    closed spec fn view(&self) -> StoreState {
        StoreState {
            max_bytes: self.max_bytes,
            backstop: self.backstop,
            over_backstop: self.over_backstop,
            since_sweep: self.since_sweep,
            sweeping: self.sweeping,
        }
    }
}

impl CachedBlobStore {
    #[verifier::type_invariant]
    closed spec fn inv(self) -> bool {
        self@.valid()
    }

    /// A store whose cache has no ceiling.
    pub fn new() -> (r: Self)
        ensures
            r@ == StoreState::fresh(None, None),
            r@.max_bytes is None && r@.backstop is None,
            !r@.over_backstop && r@.since_sweep == 0 && !r@.sweeping,
    {
        Self::with_limit(None)
    }

    /// A store that sweeps its cache to stay under `max_bytes`. Without a ceiling the cache grows
    /// until the device is full, and takes down what else lives there.
    pub fn with_limit(max_bytes: Option<u64>) -> (r: Self)
        ensures
            r@ == StoreState::fresh(max_bytes, None),
            r@.max_bytes == max_bytes && r@.backstop is None,
            !r@.over_backstop && r@.since_sweep == 0 && !r@.sweeping,
    {
        Self::build(max_bytes, None)
    }

    /// The store of a pod that shares the cache of its node. It never sweeps: the agent of the node
    /// is the only one who does. With a `backstop` it skips cache writes while the cache is larger
    /// than that, for nodes on which the cache has no partition of its own.
    pub fn for_pod(backstop: Option<u64>) -> (r: Self)
        ensures
            r@ == StoreState::fresh(None, backstop),
            r@.max_bytes is None && r@.backstop == backstop,
            !r@.over_backstop && r@.since_sweep == 0 && !r@.sweeping,
    {
        Self::build(None, backstop)
    }

    /// A store sets at most one of the two, because they share the counter `since_sweep`.
    fn build(max_bytes: Option<u64>, backstop: Option<u64>) -> (r: Self)
        requires
            !(max_bytes is Some && backstop is Some),
        ensures
            r@ == StoreState::fresh(max_bytes, backstop),
    {
        CachedBlobStore {
            max_bytes,
            backstop,
            over_backstop: false,
            since_sweep: 0,
            sweeping: false,
        }
    }

    /// Accounts for a blob of `wrote` bytes against the backstop, and says whether the cache may have
    /// it. On `Measure` the caller measures the cache and reports its size to `measured`.
    pub fn backstop_skip(&mut self, wrote: u64) -> (r: BackstopCheck)
        ensures
            (final(self)@, r) == old(self)@.backstop_skip(wrote),
            final(self)@.valid(),
    {
        proof {
            use_type_invariant(&*self);
        }
        match self.backstop {
            None => BackstopCheck::Admit,
            Some(cap) => {
                let sum: u64 = self.since_sweep.wrapping_add(wrote);
                if sum >= cap / 8 {
                    self.since_sweep = 0;
                    BackstopCheck::Measure
                } else {
                    self.since_sweep = sum;
                    if self.over_backstop {
                        BackstopCheck::Skip
                    } else {
                        BackstopCheck::Admit
                    }
                }
            },
        }
    }

    /// Takes note of the size of the cache, and says whether the cache write is skipped.
    pub fn measured(&mut self, size: u64) -> (r: bool)
        ensures
            final(self)@ == old(self)@.measured(size),
            final(self)@.valid(),
            r == final(self)@.over_backstop,
    {
        proof {
            use_type_invariant(&*self);
        }
        if let Some(cap) = self.backstop {
            self.over_backstop = size > cap;
        }
        self.over_backstop
    }

    /// Accounts for a blob of `wrote` bytes against the ceiling. `Some(max)` starts a sweep, which
    /// the caller carries out down from `max` and then reports with `sweep_done`.
    pub fn maybe_sweep(&mut self, wrote: u64) -> (r: Option<u64>)
        ensures
            (final(self)@, r) == old(self)@.maybe_sweep(wrote),
            final(self)@.valid(),
    {
        proof {
            use_type_invariant(&*self);
        }
        match self.max_bytes {
            None => None,
            Some(max) => {
                self.since_sweep = self.since_sweep.wrapping_add(wrote);
                if self.since_sweep < max / 8 {
                    return None;
                }
                if self.sweeping {
                    return None;
                }
                self.sweeping = true;
                self.since_sweep = 0;
                Some(max)
            },
        }
    }

    /// Ends a sweep, whether or not it removed what it was meant to: one that stayed marked as under
    /// way would keep the cache from ever being swept again.
    pub fn sweep_done(&mut self)
        ensures
            final(self)@ == old(self)@.sweep_done(),
            final(self)@.valid(),
    {
        proof {
            use_type_invariant(&*self);
        }
        self.sweeping = false;
    }
}

} // verus!
