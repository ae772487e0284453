//! The operations that the surrounding environment invokes on a pool: each
//! reconciles the pool with its custody balances, prices the request, checks
//! the caller's minimum, and commits the next snapshot only on success.
use vstd::prelude::*;

use crate::convert::{
    convert_balance, convert_balance_back_from, convert_balance_back_to, from_accounting,
    to_accounting,
};
use crate::curve::{d_of, get_d};
use crate::errors::{checked_result, ErrorCode};
use crate::pool::{
    agrees, get_mint_amount, get_redeem_proportion_amount, get_redeem_single_amount,
    get_swap_amount, mint_quote, redeem_proportion_quote, redeem_single_quote, swap_quote,
    MintQuote, MintResult, RedeemProportionQuote, RedeemProportionResult, RedeemSingleQuote,
    RedeemSingleResult, SwapQuote, SwapResult,
};
use crate::ramp::{get_a, ramp_value};
use crate::stake::StakePool;
use crate::state::{PoolModel, PoolState};

verus! {

/// Base units held back in the base asset's custody account, outside the
/// pool's accounting.
pub const INIT_SOL: u64 = 100_000_000;

/// `p` with its balances and supply replaced.
pub open spec fn with_reserves(p: PoolModel, balances: Seq<u64>, total_supply: u64) -> PoolModel {
    PoolModel { balances, total_supply, ..p }
}

/// The balances and invariant that the custody snapshot gives: the base
/// asset's custody less `INIT_SOL`, and the accounting value of the
/// yield-bearing asset's custody. `PoolImbalanced` where the invariant falls
/// below the recorded supply.
pub open spec fn reconcile(
    p: PoolModel,
    sol_lamports: u64,
    jito_sol_amount: u64,
    stake_pool: StakePool,
    now: u64,
) -> Result<(Seq<u64>, u64), ErrorCode> {
    match to_accounting(jito_sol_amount, stake_pool) {
        None => Err(ErrorCode::ArithmeticError),
        Some(jito) => if sol_lamports < INIT_SOL {
            Err(ErrorCode::ArithmeticError)
        } else {
            let balances = seq![(sol_lamports - INIT_SOL) as u64, jito as u64];
            match ramp_value(p.a, p.a_block, p.future_a, p.future_a_block, now) {
                None => Err(ErrorCode::ArithmeticError),
                Some(a) => match d_of(balances, a as u64) {
                    None => Err(ErrorCode::ArithmeticError),
                    Some(d) => if d < p.total_supply {
                        Err(ErrorCode::PoolImbalanced)
                    } else {
                        Ok((balances, d as u64))
                    },
                },
            }
        },
    }
}

/// A copy of a vector of balances.
fn copy_of(v: &Vec<u64>) -> (r: Vec<u64>)
    ensures
        r@ == v@,
{
    let mut r: Vec<u64> = Vec::new();
    let mut i: usize = 0;
    while i < v.len()
        invariant
            0 <= i <= v@.len(),
            r@ == v@.subrange(0, i as int),
        decreases v@.len() - i,
    {
        r.push(v[i]);
        i = i + 1;
    }
    assert(r@ =~= v@);
    r
}

/// Reconciles the pool with its custody: `sol_lamports` held for the base
/// asset, `jito_sol_amount` native units held of the yield-bearing asset,
/// valued at the rate of `stake_pool`. The growth of the invariant over the
/// recorded supply is the yield and fees accrued since the last operation.
///
/// On success the balances and the supply are overwritten; on failure
/// (`PoolImbalanced` when the invariant would fall below the recorded
/// supply, `ArithmeticError` otherwise) nothing is written.
pub fn collect_fees(
    sol_lamports: u64,
    jito_sol_amount: u64,
    pool_info: &mut PoolState,
    stake_pool: &StakePool,
    now: u64,
) -> (r: Result<(), ErrorCode>)
    ensures
        match reconcile(old(pool_info)@, sol_lamports, jito_sol_amount, *stake_pool, now) {
            Ok((balances, d)) => r is Ok && final(pool_info)@ == with_reserves(
                old(pool_info)@,
                balances,
                d,
            ),
            Err(e) => r == Err::<(), ErrorCode>(e) && final(pool_info)@ == old(pool_info)@,
        },
{
    let jito_sol_balance: u64 = convert_balance(jito_sol_amount, stake_pool)?;
    if sol_lamports < INIT_SOL {
        return Err(ErrorCode::ArithmeticError);
    }
    let sol_balance: u64 = sol_lamports - INIT_SOL;
    let balances: Vec<u64> = vec![sol_balance, jito_sol_balance];
    assert(balances@ == seq![sol_balance, jito_sol_balance]);
    let a: u64 = match get_a(
        pool_info.a,
        pool_info.a_block,
        pool_info.future_a,
        pool_info.future_a_block,
        now,
    ) {
        Some(v) => v,
        None => return Err(ErrorCode::ArithmeticError),
    };
    let total_supply: u64 = match get_d(balances.as_slice(), a) {
        Some(v) => v,
        None => return Err(ErrorCode::ArithmeticError),
    };
    if total_supply < pool_info.total_supply {
        return Err(ErrorCode::PoolImbalanced);
    }
    pool_info.balances = balances;
    pool_info.total_supply = total_supply;
    Ok(())
}


/// The outcome of a mint: reconcile, price on the reconciled pool, and
/// refuse with `MintUnderMin` when fewer than `min_mint_amount` pool tokens
/// would be minted.
pub open spec fn mint_outcome(
    p: PoolModel,
    sol_lamports: u64,
    jito_sol_amount: u64,
    stake_pool: StakePool,
    amounts: Seq<u64>,
    min_mint_amount: u64,
    now: u64,
) -> Result<MintQuote, ErrorCode> {
    match reconcile(p, sol_lamports, jito_sol_amount, stake_pool, now) {
        Err(e) => Err(e),
        Ok((balances, d)) => match mint_quote(with_reserves(p, balances, d), amounts, now) {
            Err(e) => Err(e),
            Ok(q) => if q.mint_amount < min_mint_amount {
                Err(ErrorCode::MintUnderMin)
            } else {
                Ok(q)
            },
        },
    }
}

/// Mints pool tokens for a deposit of `amounts` (one raw amount per asset).
/// On success the pool takes the new balances and supply; on failure it is
/// left as it was.
pub fn mint(
    pool: &mut PoolState,
    sol_lamports: u64,
    jito_sol_amount: u64,
    stake_pool: &StakePool,
    amounts: &[u64],
    min_mint_amount: u64,
    now: u64,
) -> (r: Result<MintResult, ErrorCode>)
    requires
        old(pool).wf(),
    ensures
        agrees(
            r,
            mint_outcome(
                old(pool)@,
                sol_lamports,
                jito_sol_amount,
                *stake_pool,
                amounts@,
                min_mint_amount,
                now,
            ),
        ),
        match r {
            Ok(res) => final(pool)@ == with_reserves(old(pool)@, res.balances@, res.total_supply),
            Err(_) => final(pool)@ == old(pool)@,
        },
        final(pool).wf(),
{
    let saved_balances: Vec<u64> = copy_of(&pool.balances);
    let saved_supply: u64 = pool.total_supply;
    collect_fees(sol_lamports, jito_sol_amount, pool, stake_pool, now)?;
    let res: MintResult = match get_mint_amount(pool, amounts, now) {
        Ok(v) => v,
        Err(e) => {
            pool.balances = saved_balances;
            pool.total_supply = saved_supply;
            return Err(e);
        },
    };
    if res.mint_amount < min_mint_amount {
        pool.balances = saved_balances;
        pool.total_supply = saved_supply;
        return Err(ErrorCode::MintUnderMin);
    }
    pool.balances = copy_of(&res.balances);
    pool.total_supply = res.total_supply;
    Ok(res)
}

/// The outcome of a swap: reconcile, price on the reconciled pool, and
/// refuse with `SwapUnderMin` when less than `min_dy` would be paid out.
pub open spec fn swap_outcome(
    p: PoolModel,
    sol_lamports: u64,
    jito_sol_amount: u64,
    stake_pool: StakePool,
    i: int,
    j: int,
    dx: u64,
    min_dy: u64,
    now: u64,
) -> Result<SwapQuote, ErrorCode> {
    match reconcile(p, sol_lamports, jito_sol_amount, stake_pool, now) {
        Err(e) => Err(e),
        Ok((balances, d)) => match swap_quote(with_reserves(p, balances, d), i, j, dx, now) {
            Err(e) => Err(e),
            Ok(q) => if q.dy < min_dy {
                Err(ErrorCode::SwapUnderMin)
            } else {
                Ok(q)
            },
        },
    }
}

/// Swaps `dx` raw units of asset `i` for asset `j`. On success the pool
/// takes the reconciled supply and balances, with balance `i` raised by the
/// deposit and balance `j` set to the solved value; on failure it is left as
/// it was.
pub fn swap(
    pool: &mut PoolState,
    sol_lamports: u64,
    jito_sol_amount: u64,
    stake_pool: &StakePool,
    i: usize,
    j: usize,
    dx: u64,
    min_dy: u64,
    now: u64,
) -> (r: Result<SwapResult, ErrorCode>)
    requires
        old(pool).wf(),
    ensures
        agrees(
            r,
            swap_outcome(
                old(pool)@,
                sol_lamports,
                jito_sol_amount,
                *stake_pool,
                i as int,
                j as int,
                dx,
                min_dy,
                now,
            ),
        ),
        match r {
            Ok(res) => reconcile(old(pool)@, sol_lamports, jito_sol_amount, *stake_pool, now)
                matches Ok((balances, d)) && final(pool)@ == with_reserves(
                old(pool)@,
                balances.update(i as int, res.balance_i).update(j as int, res.y),
                d,
            ),
            Err(_) => final(pool)@ == old(pool)@,
        },
        final(pool).wf(),
{
    let saved_balances: Vec<u64> = copy_of(&pool.balances);
    let saved_supply: u64 = pool.total_supply;
    collect_fees(sol_lamports, jito_sol_amount, pool, stake_pool, now)?;
    let res: SwapResult = match get_swap_amount(pool, i, j, dx, now) {
        Ok(v) => v,
        Err(e) => {
            pool.balances = saved_balances;
            pool.total_supply = saved_supply;
            return Err(e);
        },
    };
    if res.dy < min_dy {
        pool.balances = saved_balances;
        pool.total_supply = saved_supply;
        return Err(ErrorCode::SwapUnderMin);
    }
    pool.balances.set(i, res.balance_i);
    pool.balances.set(j, res.y);
    Ok(res)
}

/// The outcome of a proportional redemption: `ArgumentValidationFailure`
/// unless there is one minimum per asset; otherwise reconcile, price on the
/// reconciled pool, and refuse with `RedeemUnderMin` when an asset would pay
/// out less than its minimum.
pub open spec fn redeem_proportion_outcome(
    p: PoolModel,
    sol_lamports: u64,
    jito_sol_amount: u64,
    stake_pool: StakePool,
    amount: u64,
    min_redeem_amounts: Seq<u64>,
    now: u64,
) -> Result<RedeemProportionQuote, ErrorCode> {
    if min_redeem_amounts.len() != 2 {
        Err(ErrorCode::ArgumentValidationFailure)
    } else {
        match reconcile(p, sol_lamports, jito_sol_amount, stake_pool, now) {
            Err(e) => Err(e),
            Ok((balances, d)) => match redeem_proportion_quote(
                with_reserves(p, balances, d),
                amount,
            ) {
                Err(e) => Err(e),
                Ok(q) => if q.amounts[0] < min_redeem_amounts[0] || q.amounts[1]
                    < min_redeem_amounts[1] {
                    Err(ErrorCode::RedeemUnderMin)
                } else {
                    Ok(q)
                },
            },
        }
    }
}

/// Redeems `amount` pool tokens for a share of every asset. On success the
/// pool takes the new balances and supply; on failure it is left as it was.
pub fn redeem_proportion(
    pool: &mut PoolState,
    sol_lamports: u64,
    jito_sol_amount: u64,
    stake_pool: &StakePool,
    amount: u64,
    min_redeem_amounts: &[u64],
    now: u64,
) -> (r: Result<RedeemProportionResult, ErrorCode>)
    requires
        old(pool).wf(),
    ensures
        agrees(
            r,
            redeem_proportion_outcome(
                old(pool)@,
                sol_lamports,
                jito_sol_amount,
                *stake_pool,
                amount,
                min_redeem_amounts@,
                now,
            ),
        ),
        match r {
            Ok(res) => final(pool)@ == with_reserves(old(pool)@, res.balances@, res.total_supply),
            Err(_) => final(pool)@ == old(pool)@,
        },
        final(pool).wf(),
{
    if min_redeem_amounts.len() != 2 {
        return Err(ErrorCode::ArgumentValidationFailure);
    }
    let saved_balances: Vec<u64> = copy_of(&pool.balances);
    let saved_supply: u64 = pool.total_supply;
    collect_fees(sol_lamports, jito_sol_amount, pool, stake_pool, now)?;
    let res: RedeemProportionResult = match get_redeem_proportion_amount(pool, amount) {
        Ok(v) => v,
        Err(e) => {
            pool.balances = saved_balances;
            pool.total_supply = saved_supply;
            return Err(e);
        },
    };
    if res.amounts[0] < min_redeem_amounts[0] || res.amounts[1] < min_redeem_amounts[1] {
        pool.balances = saved_balances;
        pool.total_supply = saved_supply;
        return Err(ErrorCode::RedeemUnderMin);
    }
    pool.balances = copy_of(&res.balances);
    pool.total_supply = res.total_supply;
    Ok(res)
}

/// The outcome of a single-asset redemption: reconcile, price on the
/// reconciled pool, and refuse with `RedeemUnderMin` when less than
/// `min_redeem_amount` would be paid out.
pub open spec fn redeem_single_outcome(
    p: PoolModel,
    sol_lamports: u64,
    jito_sol_amount: u64,
    stake_pool: StakePool,
    amount: u64,
    i: int,
    min_redeem_amount: u64,
    now: u64,
) -> Result<RedeemSingleQuote, ErrorCode> {
    match reconcile(p, sol_lamports, jito_sol_amount, stake_pool, now) {
        Err(e) => Err(e),
        Ok((balances, d)) => match redeem_single_quote(
            with_reserves(p, balances, d),
            amount,
            i,
            now,
        ) {
            Err(e) => Err(e),
            Ok(q) => if q.dy < min_redeem_amount {
                Err(ErrorCode::RedeemUnderMin)
            } else {
                Ok(q)
            },
        },
    }
}

/// Redeems `amount` pool tokens for asset `i` alone. On success the pool
/// takes the new balances and supply; on failure it is left as it was.
pub fn redeem_single(
    pool: &mut PoolState,
    sol_lamports: u64,
    jito_sol_amount: u64,
    stake_pool: &StakePool,
    amount: u64,
    i: usize,
    min_redeem_amount: u64,
    now: u64,
) -> (r: Result<RedeemSingleResult, ErrorCode>)
    requires
        old(pool).wf(),
    ensures
        agrees(
            r,
            redeem_single_outcome(
                old(pool)@,
                sol_lamports,
                jito_sol_amount,
                *stake_pool,
                amount,
                i as int,
                min_redeem_amount,
                now,
            ),
        ),
        match r {
            Ok(res) => final(pool)@ == with_reserves(old(pool)@, res.balances@, res.total_supply),
            Err(_) => final(pool)@ == old(pool)@,
        },
        final(pool).wf(),
{
    let saved_balances: Vec<u64> = copy_of(&pool.balances);
    let saved_supply: u64 = pool.total_supply;
    collect_fees(sol_lamports, jito_sol_amount, pool, stake_pool, now)?;
    let res: RedeemSingleResult = match get_redeem_single_amount(pool, amount, i, now) {
        Ok(v) => v,
        Err(e) => {
            pool.balances = saved_balances;
            pool.total_supply = saved_supply;
            return Err(e);
        },
    };
    if res.dy < min_redeem_amount {
        pool.balances = saved_balances;
        pool.total_supply = saved_supply;
        return Err(ErrorCode::RedeemUnderMin);
    }
    pool.balances = copy_of(&res.balances);
    pool.total_supply = res.total_supply;
    Ok(res)
}


/// Starts a new amplification ramp at `now`, from the amplification in force
/// then to `a` at `future_a_block`.
///
/// Fails with `ArithmeticError` when the current amplification cannot be
/// computed, and with `ArgumentValidationFailure` when `a` is below it or
/// `future_a_block` lies before `now`; the pool is then left as it was.
pub fn modify_a(state: &mut PoolState, a: u64, future_a_block: u64, now: u64) -> (r: Result<
    (),
    ErrorCode,
>)
    requires
        old(state).wf(),
    ensures
        final(state).wf(),
        r is Ok ==> final(state).a_block <= final(state).future_a_block,
        match ramp_value(
            old(state).a,
            old(state).a_block,
            old(state).future_a,
            old(state).future_a_block,
            now,
        ) {
            None => r == Err::<(), ErrorCode>(ErrorCode::ArithmeticError) && final(state)@ == old(
                state,
            )@,
            Some(initial_a) => if initial_a > a || now > future_a_block {
                r == Err::<(), ErrorCode>(ErrorCode::ArgumentValidationFailure) && final(state)@
                    == old(state)@
            } else {
                r is Ok && final(state)@ == (PoolModel {
                    a: initial_a as u64,
                    a_block: now,
                    future_a: a,
                    future_a_block,
                    ..old(state)@
                })
            },
        },
{
    let initial_a: u64 = match get_a(state.a, state.a_block, state.future_a, state.future_a_block, now) {
        Some(v) => v,
        None => return Err(ErrorCode::ArithmeticError),
    };
    if initial_a > a || now > future_a_block {
        return Err(ErrorCode::ArgumentValidationFailure);
    }
    state.a = initial_a;
    state.a_block = now;
    state.future_a = a;
    state.future_a_block = future_a_block;
    Ok(())
}

/// Sets up an empty pool at `now` with the given fees and a flat ramp at
/// amplification `a`: zero balances, unit precisions, zero supply.
/// Fails with `AccountInitialized`, writing nothing, when the pool was
/// already initialized.
pub fn initialize_pool(
    state: &mut PoolState,
    mint_fee: u64,
    swap_fee: u64,
    redeem_fee: u64,
    a: u64,
    now: u64,
) -> (r: Result<(), ErrorCode>)
    ensures
        old(state).pool_initialized ==> r == Err::<(), ErrorCode>(ErrorCode::AccountInitialized)
            && final(state)@ == old(state)@,
        !old(state).pool_initialized ==> r is Ok && final(state)@ == (PoolModel {
            mint_fee,
            swap_fee,
            redeem_fee,
            total_supply: 0,
            a,
            a_block: now,
            future_a: a,
            future_a_block: now,
            balances: seq![0u64, 0u64],
            precisions: seq![1u64, 1u64],
            pool_initialized: true,
        }),
        r is Ok ==> final(state).wf() && final(state).a_block <= final(state).future_a_block,
{
    if state.pool_initialized {
        return Err(ErrorCode::AccountInitialized);
    }
    state.mint_fee = mint_fee;
    state.swap_fee = swap_fee;
    state.redeem_fee = redeem_fee;
    state.a = a;
    state.a_block = now;
    state.future_a = a;
    state.future_a_block = now;
    state.balances = vec![0, 0];
    state.precisions = vec![1, 1];
    state.total_supply = 0;
    state.pool_initialized = true;
    assert(state.balances@ == seq![0u64, 0u64]);
    assert(state.precisions@ == seq![1u64, 1u64]);
    Ok(())
}

/// Native units of asset `index` that the custody layer takes in for
/// `amount` in accounting value: the amount itself for the base asset, one
/// unit more than its conversion for the yield-bearing asset.
pub fn transfer_to_program(index: usize, amount: u64, stake_pool: &StakePool) -> (r: Result<
    u64,
    ErrorCode,
>)
    ensures
        index == 0 ==> r == Ok::<u64, ErrorCode>(amount),
        index != 0 ==> checked_result(
            r,
            match from_accounting(amount, *stake_pool) {
                Some(v) => if v + 1 <= u64::MAX {
                    Some(v + 1)
                } else {
                    None
                },
                None => None,
            },
        ),
{
    if index == 0 {
        Ok(amount)
    } else {
        convert_balance_back_to(amount, stake_pool)
    }
}

/// Native units of asset `index` that the custody layer pays out for
/// `amount` in accounting value: the amount itself for the base asset, one
/// unit less than its conversion for the yield-bearing asset.
pub fn transfer_from_program(index: usize, amount: u64, stake_pool: &StakePool) -> (r: Result<
    u64,
    ErrorCode,
>)
    ensures
        index == 0 ==> r == Ok::<u64, ErrorCode>(amount),
        index != 0 ==> checked_result(
            r,
            match from_accounting(amount, *stake_pool) {
                Some(v) => if v >= 1 {
                    Some(v - 1)
                } else {
                    None
                },
                None => None,
            },
        ),
{
    if index == 0 {
        Ok(amount)
    } else {
        convert_balance_back_from(amount, stake_pool)
    }
}

} // verus!
