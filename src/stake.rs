//! The exchange-rate snapshot of the yield-bearing asset.
use vstd::prelude::*;

verus! {

/// What the engine reads of the stake pool behind the yield-bearing asset:
/// the total value backing it and the number of its shares outstanding.
/// One share is worth `total_lamports / pool_token_supply` base units.
#[derive(Debug, Clone, Copy, PartialEq, Eq, Structural)]
pub struct StakePool {
    /// Total value, in base units, that backs the shares.
    pub total_lamports: u64,
    /// Number of shares outstanding.
    pub pool_token_supply: u64,
}

} // verus!
