//! What holds of the store as a whole, whatever the tiers answer and however operations interleave.

pub mod accounting;
pub mod alone;
pub mod files;
pub mod protocol;
pub mod runs;
pub mod sweeps;
pub mod tiers;
