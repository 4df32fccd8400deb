//! Limits that governance cannot exceed.

use vstd::prelude::*;

verus! {

/// Upper bound on the per-pair fee, in basis points: 10 %.
pub const MAX_FEE_BPS: u32 = 1_000;

/// Basis-point denominator: one basis point is a ten-thousandth.
pub const BPS_DENOMINATOR: i128 = 10_000;

/// Most entries that a single batch may hold.
pub const MAX_BATCH_SIZE: u32 = 100;

/// Longest per-pair cooldown, in seconds: 30 days.
pub const MAX_COOLDOWN_SECS: u64 = 2_592_000;

} // verus!
