//! Conversion of the yield-bearing asset between its native units and its
//! base-asset accounting value.
use vstd::prelude::*;

use crate::errors::{checked_result, ErrorCode};
use crate::stake::StakePool;

verus! {

/// `x * num / den` when `den` is non-zero and the quotient fits in `u64`.
pub open spec fn scaled(x: u64, num: u64, den: u64) -> Option<int> {
    let q = x * num / (den as int);
    if den == 0 || q > u64::MAX {
        None
    } else {
        Some(q)
    }
}

/// The accounting value of `balance` native units.
pub open spec fn to_accounting(balance: u64, stake_pool: StakePool) -> Option<int> {
    scaled(balance, stake_pool.total_lamports, stake_pool.pool_token_supply)
}

/// The native units worth `balance` in accounting value, rounded down.
pub open spec fn from_accounting(balance: u64, stake_pool: StakePool) -> Option<int> {
    scaled(balance, stake_pool.pool_token_supply, stake_pool.total_lamports)
}

/// The product of two 64-bit values fits in `u128`.
proof fn lemma_word_square(x: u64, y: u64)
    ensures
        x * y <= u128::MAX,
{
    assert(x * y <= u64::MAX * u64::MAX) by (nonlinear_arith)
        requires
            x <= u64::MAX,
            y <= u64::MAX,
    ;
}

/// `x * num / den` in `u128`, narrowed to `u64`.
fn mul_div(x: u64, num: u64, den: u64) -> (r: Result<u64, ErrorCode>)
    ensures
        checked_result(r, scaled(x, num, den)),
{
    proof {
        lemma_word_square(x, num);
    }
    let product: u128 = x as u128 * num as u128;
    if den == 0 {
        return Err(ErrorCode::ArithmeticError);
    }
    let q: u128 = product / den as u128;
    if q > u64::MAX as u128 {
        Err(ErrorCode::ArithmeticError)
    } else {
        Ok(q as u64)
    }
}

/// Accounting value of `balance` native units of the yield-bearing asset:
/// `balance * total_lamports / pool_token_supply`, rounded down.
pub fn convert_balance(balance: u64, stake_pool: &StakePool) -> (r: Result<u64, ErrorCode>)
    ensures
        checked_result(r, to_accounting(balance, *stake_pool)),
{
    mul_div(balance, stake_pool.total_lamports, stake_pool.pool_token_supply)
}

/// Native units of the yield-bearing asset worth `balance` in accounting
/// value: `balance * pool_token_supply / total_lamports`, rounded down.
pub fn convert_balance_back(balance: u64, stake_pool: &StakePool) -> (r: Result<u64, ErrorCode>)
    ensures
        checked_result(r, from_accounting(balance, *stake_pool)),
{
    mul_div(balance, stake_pool.pool_token_supply, stake_pool.total_lamports)
}

/// Native units to take into custody for `balance` in accounting value: one
/// unit more than the rounded-down conversion, in the pool's favour.
pub fn convert_balance_back_to(balance: u64, stake_pool: &StakePool) -> (r: Result<u64, ErrorCode>)
    ensures
        checked_result(
            r,
            match from_accounting(balance, *stake_pool) {
                Some(v) => if v + 1 <= u64::MAX {
                    Some(v + 1)
                } else {
                    None
                },
                None => None,
            },
        ),
{
    let converted: u64 = convert_balance_back(balance, stake_pool)?;
    if converted == u64::MAX {
        Err(ErrorCode::ArithmeticError)
    } else {
        Ok(converted + 1)
    }
}

/// Native units to pay out of custody for `balance` in accounting value: one
/// unit less than the rounded-down conversion, in the pool's favour.
pub fn convert_balance_back_from(balance: u64, stake_pool: &StakePool) -> (r: Result<u64, ErrorCode>)
    ensures
        checked_result(
            r,
            match from_accounting(balance, *stake_pool) {
                Some(v) => if v >= 1 {
                    Some(v - 1)
                } else {
                    None
                },
                None => None,
            },
        ),
{
    let converted: u64 = convert_balance_back(balance, stake_pool)?;
    if converted == 0 {
        Err(ErrorCode::ArithmeticError)
    } else {
        Ok(converted - 1)
    }
}

} // verus!
