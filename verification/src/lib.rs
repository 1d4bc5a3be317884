//! A small synchronization backend for reading devices: accounts are
//! registered against a credential store, every request re-proves its
//! identity, and per-document reading progress is merged under a
//! deterministic last-writer-by-progress-then-time rule.

pub mod credentials;
pub mod gateway;
pub mod hashing;
pub mod ledger;

use vstd::prelude::*;

verus! {

/// Completion is measured in ten-thousandths: `PERCENT_SCALE` stands for 100%.
pub const PERCENT_SCALE: u32 = 10000;

/// A completion fraction is valid when it does not exceed 100%.
pub open spec fn valid_percentage(p: u32) -> bool {
    p <= PERCENT_SCALE
}

} // verus!
