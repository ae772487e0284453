//! The pool's persistent state, as the engine sees it.
use vstd::prelude::*;

verus! {

/// Number of assets a pool holds: the base asset at index 0 and its
/// yield-bearing derivative at index 1.
pub const N_COINS: usize = 2;

/// A snapshot of a pool. The surrounding environment owns and persists it;
/// each operation reads one snapshot and, on success only, writes the next.
pub struct PoolState {
    /// Fee on minted pool tokens, over `FEE_PRECISION`.
    pub mint_fee: u64,
    /// Fee on swap output, over `FEE_PRECISION`.
    pub swap_fee: u64,
    /// Fee on redeemed pool tokens, over `FEE_PRECISION`.
    pub redeem_fee: u64,
    /// The invariant `D`: the outstanding pool-token supply.
    pub total_supply: u64,
    /// Amplification frozen at `a_block`.
    pub a: u64,
    /// Start of the amplification ramp; never after its end, as
    /// `initialize_pool` and `modify_a` set them.
    pub a_block: u64,
    /// Amplification the ramp reaches at `future_a_block`.
    pub future_a: u64,
    /// End of the amplification ramp.
    pub future_a_block: u64,
    /// Accounting value of each asset, in base units after precision scaling.
    pub balances: Vec<u64>,
    /// Factor that turns a raw amount of each asset into accounting units.
    pub precisions: Vec<u64>,
    /// Whether the pool has been initialized.
    pub pool_initialized: bool,
}

/// The mathematical model of a `PoolState`.
pub struct PoolModel {
    pub mint_fee: u64,
    pub swap_fee: u64,
    pub redeem_fee: u64,
    pub total_supply: u64,
    pub a: u64,
    pub a_block: u64,
    pub future_a: u64,
    pub future_a_block: u64,
    pub balances: Seq<u64>,
    pub precisions: Seq<u64>,
    pub pool_initialized: bool,
}

impl View for PoolState {
    type V = PoolModel;

    open spec fn view(&self) -> PoolModel {
        PoolModel {
            mint_fee: self.mint_fee,
            swap_fee: self.swap_fee,
            redeem_fee: self.redeem_fee,
            total_supply: self.total_supply,
            a: self.a,
            a_block: self.a_block,
            future_a: self.future_a,
            future_a_block: self.future_a_block,
            balances: self.balances@,
            precisions: self.precisions@,
            pool_initialized: self.pool_initialized,
        }
    }
}

impl PoolModel {
    /// One balance and one precision per asset.
    pub open spec fn wf(self) -> bool {
        &&& self.balances.len() == N_COINS
        &&& self.precisions.len() == N_COINS
    }
}

impl PoolState {
    /// See `PoolModel::wf`.
    pub open spec fn wf(&self) -> bool {
        self@.wf()
    }
}

} // verus!
