//! Pricing of the four pool operations on a reconciled snapshot: mint,
//! swap, proportional redemption and single-asset redemption.
//!
//! Each function computes the priced amounts and the snapshot that would
//! follow; none of them writes the pool.
use vstd::arithmetic::div_mod::{lemma_div_is_ordered, lemma_div_is_ordered_by_denominator};
use vstd::arithmetic::mul::lemma_mul_inequality;
use vstd::prelude::*;

use crate::curve::{d_of, get_d, get_y, y_of};
use crate::errors::ErrorCode;
use crate::ramp::{get_a, ramp_value};
use crate::state::{PoolModel, PoolState};
use crate::{widen, FEE_PRECISION};

verus! {

/// The outcome of a mint.
#[derive(Debug, Clone, PartialEq, Eq)]
pub struct MintResult {
    /// Pool tokens minted to the depositor, net of the fee.
    pub mint_amount: u64,
    /// Pool tokens withheld as the mint fee.
    pub fee_amount: u64,
    /// Balances after the deposit.
    pub balances: Vec<u64>,
    /// Invariant after the deposit; the new pool-token supply.
    pub total_supply: u64,
}

/// The outcome of a swap.
#[derive(Debug, Clone, PartialEq, Eq)]
pub struct SwapResult {
    /// Raw amount of the input asset paid in.
    pub dx: u64,
    /// Raw amount of the output asset paid out, net of the fee.
    pub dy: u64,
    /// New balance of the output asset.
    pub y: u64,
    /// New balance of the input asset.
    pub balance_i: u64,
}

/// The outcome of a proportional redemption.
#[derive(Debug, Clone, PartialEq, Eq)]
pub struct RedeemProportionResult {
    /// Raw amount of each asset paid out.
    pub amounts: Vec<u64>,
    /// Balances after the redemption.
    pub balances: Vec<u64>,
    /// Pool tokens withheld as the redemption fee.
    pub fee_amount: u64,
    /// Pool-token supply after the redemption.
    pub total_supply: u64,
    /// Pool tokens redeemed, net of the fee.
    pub redeem_amount: u64,
}

/// The outcome of a single-asset redemption.
#[derive(Debug, Clone, PartialEq, Eq)]
pub struct RedeemSingleResult {
    /// Raw amount of the chosen asset paid out.
    pub dy: u64,
    /// Pool tokens withheld as the redemption fee.
    pub fee_amount: u64,
    /// Pool-token supply after the redemption.
    pub total_supply: u64,
    /// Balances after the redemption.
    pub balances: Vec<u64>,
    /// Pool tokens redeemed, net of the fee.
    pub redeem_amount: u64,
}

/// Model of a `MintResult`.
pub struct MintQuote {
    pub mint_amount: u64,
    pub fee_amount: u64,
    pub balances: Seq<u64>,
    pub total_supply: u64,
}

/// Model of a `SwapResult`.
pub struct SwapQuote {
    pub dx: u64,
    pub dy: u64,
    pub y: u64,
    pub balance_i: u64,
}

/// Model of a `RedeemProportionResult`.
pub struct RedeemProportionQuote {
    pub amounts: Seq<u64>,
    pub balances: Seq<u64>,
    pub fee_amount: u64,
    pub total_supply: u64,
    pub redeem_amount: u64,
}

/// Model of a `RedeemSingleResult`.
pub struct RedeemSingleQuote {
    pub dy: u64,
    pub fee_amount: u64,
    pub total_supply: u64,
    pub balances: Seq<u64>,
    pub redeem_amount: u64,
}

impl View for MintResult {
    type V = MintQuote;

    open spec fn view(&self) -> MintQuote {
        MintQuote {
            mint_amount: self.mint_amount,
            fee_amount: self.fee_amount,
            balances: self.balances@,
            total_supply: self.total_supply,
        }
    }
}

impl View for SwapResult {
    type V = SwapQuote;

    open spec fn view(&self) -> SwapQuote {
        SwapQuote { dx: self.dx, dy: self.dy, y: self.y, balance_i: self.balance_i }
    }
}

impl View for RedeemProportionResult {
    type V = RedeemProportionQuote;

    open spec fn view(&self) -> RedeemProportionQuote {
        RedeemProportionQuote {
            amounts: self.amounts@,
            balances: self.balances@,
            fee_amount: self.fee_amount,
            total_supply: self.total_supply,
            redeem_amount: self.redeem_amount,
        }
    }
}

impl View for RedeemSingleResult {
    type V = RedeemSingleQuote;

    open spec fn view(&self) -> RedeemSingleQuote {
        RedeemSingleQuote {
            dy: self.dy,
            fee_amount: self.fee_amount,
            total_supply: self.total_supply,
            balances: self.balances@,
            redeem_amount: self.redeem_amount,
        }
    }
}

/// `r` is the outcome that the model `q` describes.
pub open spec fn agrees<R: View>(r: Result<R, ErrorCode>, q: Result<R::V, ErrorCode>) -> bool {
    match r {
        Ok(x) => q == Ok::<R::V, ErrorCode>(x@),
        Err(e) => q == Err::<R::V, ErrorCode>(e),
    }
}

/// The fee at `rate` (over `FEE_PRECISION`) on `amount`, rounded down;
/// `None` where `amount * rate` leaves `u64` or the fee exceeds the amount.
pub open spec fn fee_of(amount: int, rate: u64) -> Option<int> {
    let fee = amount * rate / (FEE_PRECISION as int);
    if amount * rate > u64::MAX || fee > amount {
        None
    } else {
        Some(fee)
    }
}

/// The balance after depositing `amount` raw units scaled by `precision`;
/// a zero amount leaves the balance as it is.
pub open spec fn deposit(balance: u64, amount: u64, precision: u64) -> Option<u64> {
    if amount == 0 {
        Some(balance)
    } else if amount * precision > u64::MAX || balance + amount * precision > u64::MAX {
        None
    } else {
        Some((balance + amount * precision) as u64)
    }
}

/// Pricing of a mint of `amounts` at time `now`: each non-zero amount is
/// scaled and added to its balance, the new invariant less the old supply is
/// minted, and the mint fee is withheld from it. Once the pool has a supply,
/// at least one amount must be non-zero.
pub open spec fn mint_quote(p: PoolModel, amounts: Seq<u64>, now: u64) -> Result<
    MintQuote,
    ErrorCode,
> {
    if amounts.len() != 2 || (amounts[0] == 0 && amounts[1] == 0 && p.total_supply != 0) {
        Err(ErrorCode::ArgumentValidationFailure)
    } else {
        match ramp_value(p.a, p.a_block, p.future_a, p.future_a_block, now) {
            None => Err(ErrorCode::ArithmeticError),
            Some(a) => match deposit(p.balances[0], amounts[0], p.precisions[0]) {
                None => Err(ErrorCode::ArithmeticError),
                Some(b0) => match deposit(p.balances[1], amounts[1], p.precisions[1]) {
                    None => Err(ErrorCode::ArithmeticError),
                    Some(b1) => match d_of(seq![b0, b1], a as u64) {
                        None => Err(ErrorCode::ArithmeticError),
                        Some(new_d) => if new_d < p.total_supply {
                            Err(ErrorCode::ArithmeticError)
                        } else {
                            match fee_of(new_d - p.total_supply, p.mint_fee) {
                                None => Err(ErrorCode::ArithmeticError),
                                Some(fee) => Ok(
                                    MintQuote {
                                        mint_amount: (new_d - p.total_supply - fee) as u64,
                                        fee_amount: fee as u64,
                                        balances: seq![b0, b1],
                                        total_supply: new_d as u64,
                                    },
                                ),
                            }
                        },
                    },
                },
            },
        }
    }
}

/// `amount` less the fee at `rate`, with the fee.
fn charge_fee(amount: u64, rate: u64) -> (r: Option<(u64, u64)>)
    ensures
        match r {
            Some((net, fee)) => fee_of(amount as int, rate) == Some(fee as int) && net == amount
                - fee,
            None => fee_of(amount as int, rate) is None,
        },
{
    if rate > 0 {
        let fee: u64 = amount.checked_mul(rate)? / FEE_PRECISION;
        let net: u64 = amount.checked_sub(fee)?;
        Some((net, fee))
    } else {
        Some((amount, 0))
    }
}

/// The balance after a deposit; see `deposit`.
fn add_deposit(balance: u64, amount: u64, precision: u64) -> (r: Option<u64>)
    ensures
        r == deposit(balance, amount, precision),
{
    if amount == 0 {
        return Some(balance);
    }
    balance.checked_add(amount.checked_mul(precision)?)
}

/// Prices a mint of `amounts` (one raw amount per asset) at time `now`.
///
/// Fails with `ArgumentValidationFailure` unless there are exactly two
/// amounts, or when both are zero while the pool has a supply; with
/// `ArithmeticError` when a step overflows, the invariant cannot be solved,
/// or it would fall below the current supply.
pub fn get_mint_amount(pool_info: &PoolState, amounts: &[u64], now: u64) -> (r: Result<
    MintResult,
    ErrorCode,
>)
    requires
        pool_info.wf(),
    ensures
        agrees(r, mint_quote(pool_info@, amounts@, now)),
{
    if amounts.len() != 2 {
        return Err(ErrorCode::ArgumentValidationFailure);
    }
    if amounts[0] == 0 && amounts[1] == 0 && pool_info.total_supply != 0 {
        return Err(ErrorCode::ArgumentValidationFailure);
    }
    let a: u64 = match get_a(
        pool_info.a,
        pool_info.a_block,
        pool_info.future_a,
        pool_info.future_a_block,
        now,
    ) {
        Some(v) => v,
        None => return Err(ErrorCode::ArithmeticError),
    };
    let old_d: u64 = pool_info.total_supply;
    let b0: u64 = match add_deposit(pool_info.balances[0], amounts[0], pool_info.precisions[0]) {
        Some(v) => v,
        None => return Err(ErrorCode::ArithmeticError),
    };
    let b1: u64 = match add_deposit(pool_info.balances[1], amounts[1], pool_info.precisions[1]) {
        Some(v) => v,
        None => return Err(ErrorCode::ArithmeticError),
    };
    let balances: Vec<u64> = vec![b0, b1];
    assert(balances@ == seq![b0, b1]);
    let new_d: u64 = match get_d(balances.as_slice(), a) {
        Some(v) => v,
        None => return Err(ErrorCode::ArithmeticError),
    };
    let raw: u64 = match new_d.checked_sub(old_d) {
        Some(v) => v,
        None => return Err(ErrorCode::ArithmeticError),
    };
    let (mint_amount, fee_amount) = match charge_fee(raw, pool_info.mint_fee) {
        Some(v) => v,
        None => return Err(ErrorCode::ArithmeticError),
    };
    Ok(MintResult { mint_amount, fee_amount, balances, total_supply: new_d })
}


/// What leaving a balance of `y` in place of `balance` pays out, in raw units
/// of an asset with `precision`: `(balance - y - 1) / precision`, one unit
/// short in the pool's favour.
pub open spec fn payout(balance: u64, y: int, precision: u64) -> Option<int> {
    if balance - y - 1 < 0 || precision == 0 {
        None
    } else {
        Some((balance - y - 1) / (precision as int))
    }
}

/// Pricing of a swap of `dx` raw units of asset `i` into asset `j` at time
/// `now`: the scaled `dx` is added to balance `i`, balance `j` is solved to
/// keep the invariant at the current supply, and the swap fee is withheld
/// from what that frees.
pub open spec fn swap_quote(p: PoolModel, i: int, j: int, dx: u64, now: u64) -> Result<
    SwapQuote,
    ErrorCode,
> {
    if i == j || dx == 0 || !(0 <= i < p.balances.len()) || !(0 <= j < p.balances.len()) {
        Err(ErrorCode::ArgumentValidationFailure)
    } else {
        match ramp_value(p.a, p.a_block, p.future_a, p.future_a_block, now) {
            None => Err(ErrorCode::ArithmeticError),
            Some(a) => {
                let added = dx * p.precisions[i];
                if added > u64::MAX || p.balances[i] + added > u64::MAX {
                    Err(ErrorCode::ArithmeticError)
                } else {
                    let balance_i = (p.balances[i] + added) as u64;
                    match y_of(p.balances.update(i, balance_i), j, p.total_supply, a as u64) {
                        None => Err(ErrorCode::ArithmeticError),
                        Some(y) => match payout(p.balances[j], y, p.precisions[j]) {
                            None => Err(ErrorCode::ArithmeticError),
                            Some(raw) => match fee_of(raw, p.swap_fee) {
                                None => Err(ErrorCode::ArithmeticError),
                                Some(fee) => Ok(
                                    SwapQuote {
                                        dx,
                                        dy: (raw - fee) as u64,
                                        y: y as u64,
                                        balance_i,
                                    },
                                ),
                            },
                        },
                    }
                }
            },
        }
    }
}

/// The payout for leaving `y` in place of `balance`; see `payout`.
fn pay_out(balance: u64, y: u64, precision: u64) -> (r: Option<u64>)
    ensures
        widen(r) == payout(balance, y as int, precision),
{
    balance.checked_sub(y)?.checked_sub(1)?.checked_div(precision)
}

/// Prices a swap of `dx` raw units of asset `input_index` into asset
/// `output_index` at time `now`.
///
/// Fails with `ArgumentValidationFailure` when the indices are equal or out
/// of range or `dx` is zero; with `ArithmeticError` when a step overflows,
/// the output balance cannot be solved, or the output would not cover the
/// rounding unit.
pub fn get_swap_amount(
    pool_info: &PoolState,
    input_index: usize,
    output_index: usize,
    dx: u64,
    now: u64,
) -> (r: Result<SwapResult, ErrorCode>)
    requires
        pool_info.wf(),
    ensures
        agrees(r, swap_quote(pool_info@, input_index as int, output_index as int, dx, now)),
{
    let balance_size: usize = pool_info.balances.len();
    if input_index == output_index {
        return Err(ErrorCode::ArgumentValidationFailure);
    }
    if dx == 0 {
        return Err(ErrorCode::ArgumentValidationFailure);
    }
    if input_index >= balance_size {
        return Err(ErrorCode::ArgumentValidationFailure);
    }
    if output_index >= balance_size {
        return Err(ErrorCode::ArgumentValidationFailure);
    }
    let a: u64 = match get_a(
        pool_info.a,
        pool_info.a_block,
        pool_info.future_a,
        pool_info.future_a_block,
        now,
    ) {
        Some(v) => v,
        None => return Err(ErrorCode::ArithmeticError),
    };
    let d: u64 = pool_info.total_supply;
    let added: u64 = match dx.checked_mul(pool_info.precisions[input_index]) {
        Some(v) => v,
        None => return Err(ErrorCode::ArithmeticError),
    };
    let balance_i: u64 = match pool_info.balances[input_index].checked_add(added) {
        Some(v) => v,
        None => return Err(ErrorCode::ArithmeticError),
    };
    let balances: Vec<u64> = if input_index == 0 {
        vec![balance_i, pool_info.balances[1]]
    } else {
        vec![pool_info.balances[0], balance_i]
    };
    assert(balances@ =~= pool_info.balances@.update(input_index as int, balance_i));
    let y: u64 = match get_y(balances.as_slice(), output_index, d, a) {
        Some(v) => v,
        None => return Err(ErrorCode::ArithmeticError),
    };
    let raw: u64 = match pay_out(
        pool_info.balances[output_index],
        y,
        pool_info.precisions[output_index],
    ) {
        Some(v) => v,
        None => return Err(ErrorCode::ArithmeticError),
    };
    let (dy, _fee) = match charge_fee(raw, pool_info.swap_fee) {
        Some(v) => v,
        None => return Err(ErrorCode::ArithmeticError),
    };
    Ok(SwapResult { dx, dy, y, balance_i })
}

/// What a proportional redemption of `amount` pool tokens, out of a supply
/// of `d`, takes from `balance`: `balance * amount / d`, rounded down; with
/// that share, in raw units of an asset with `precision`. `None` where a step
/// overflows, divides by zero, or the share exceeds the balance.
pub open spec fn share_of(balance: u64, amount: int, d: u64, precision: u64) -> Option<(int, int)> {
    let share = balance * amount / (d as int);
    if balance * amount > u64::MAX || d == 0 || share > balance || precision == 0 {
        None
    } else {
        Some((share, share / (precision as int)))
    }
}

/// Pricing of a proportional redemption of `amount` pool tokens: the
/// redemption fee is withheld from `amount` first, then each balance gives
/// up its share of what is left.
pub open spec fn redeem_proportion_quote(p: PoolModel, amount: u64) -> Result<
    RedeemProportionQuote,
    ErrorCode,
> {
    if amount == 0 {
        Err(ErrorCode::ArgumentValidationFailure)
    } else {
        match fee_of(amount as int, p.redeem_fee) {
            None => Err(ErrorCode::ArithmeticError),
            Some(fee) => {
                let net = amount - fee;
                match (
                    share_of(p.balances[0], net, p.total_supply, p.precisions[0]),
                    share_of(p.balances[1], net, p.total_supply, p.precisions[1]),
                ) {
                    (Some(s0), Some(s1)) => if net > p.total_supply {
                        Err(ErrorCode::ArithmeticError)
                    } else {
                        Ok(
                            RedeemProportionQuote {
                                amounts: seq![s0.1 as u64, s1.1 as u64],
                                balances: seq![
                                    (p.balances[0] - s0.0) as u64,
                                    (p.balances[1] - s1.0) as u64,
                                ],
                                fee_amount: fee as u64,
                                total_supply: (p.total_supply - net) as u64,
                                redeem_amount: net as u64,
                            },
                        )
                    },
                    _ => Err(ErrorCode::ArithmeticError),
                }
            },
        }
    }
}

/// The share of `balance` that a redemption of `amount` out of `d` takes:
/// the balance left, and the raw amount paid out; see `share_of`.
fn take_share(balance: u64, amount: u64, d: u64, precision: u64) -> (r: Option<(u64, u64)>)
    ensures
        match r {
            Some((left, out)) => share_of(balance, amount as int, d, precision) matches Some(
                s,
            ) && left == balance - s.0 && out == s.1,
            None => share_of(balance, amount as int, d, precision) is None,
        },
{
    let share: u64 = balance.checked_mul(amount)?.checked_div(d)?;
    let left: u64 = balance.checked_sub(share)?;
    let out: u64 = share.checked_div(precision)?;
    Some((left, out))
}

/// Prices a proportional redemption of `amount_bal` pool tokens.
///
/// Fails with `ArgumentValidationFailure` when the amount is zero; with
/// `ArithmeticError` when a step overflows or divides by zero, or more is
/// redeemed than the supply.
pub fn get_redeem_proportion_amount(pool_info: &PoolState, amount_bal: u64) -> (r: Result<
    RedeemProportionResult,
    ErrorCode,
>)
    requires
        pool_info.wf(),
    ensures
        agrees(r, redeem_proportion_quote(pool_info@, amount_bal)),
{
    if amount_bal == 0 {
        return Err(ErrorCode::ArgumentValidationFailure);
    }
    let d: u64 = pool_info.total_supply;
    let (amount, fee_amount) = match charge_fee(amount_bal, pool_info.redeem_fee) {
        Some(v) => v,
        None => return Err(ErrorCode::ArithmeticError),
    };
    let (left0, out0) = match take_share(
        pool_info.balances[0],
        amount,
        d,
        pool_info.precisions[0],
    ) {
        Some(v) => v,
        None => return Err(ErrorCode::ArithmeticError),
    };
    let (left1, out1) = match take_share(
        pool_info.balances[1],
        amount,
        d,
        pool_info.precisions[1],
    ) {
        Some(v) => v,
        None => return Err(ErrorCode::ArithmeticError),
    };
    let total_supply: u64 = match d.checked_sub(amount) {
        Some(v) => v,
        None => return Err(ErrorCode::ArithmeticError),
    };
    let amounts: Vec<u64> = vec![out0, out1];
    let balances: Vec<u64> = vec![left0, left1];
    assert(amounts@ == seq![out0, out1]);
    assert(balances@ == seq![left0, left1]);
    Ok(RedeemProportionResult { amounts, balances, fee_amount, total_supply, redeem_amount: amount })
}

/// Pricing of a redemption of `amount` pool tokens into asset `i` alone at
/// time `now`: the redemption fee is withheld from `amount` first, then
/// balance `i` is solved to keep the invariant at the supply less what is
/// left.
pub open spec fn redeem_single_quote(p: PoolModel, amount: u64, i: int, now: u64) -> Result<
    RedeemSingleQuote,
    ErrorCode,
> {
    if amount == 0 || !(0 <= i < p.balances.len()) {
        Err(ErrorCode::ArgumentValidationFailure)
    } else {
        match ramp_value(p.a, p.a_block, p.future_a, p.future_a_block, now) {
            None => Err(ErrorCode::ArithmeticError),
            Some(a) => match fee_of(amount as int, p.redeem_fee) {
                None => Err(ErrorCode::ArithmeticError),
                Some(fee) => {
                    let net = amount - fee;
                    if net > p.total_supply {
                        Err(ErrorCode::ArithmeticError)
                    } else {
                        let new_d = (p.total_supply - net) as u64;
                        match y_of(p.balances, i, new_d, a as u64) {
                            None => Err(ErrorCode::ArithmeticError),
                            Some(y) => match payout(p.balances[i], y, p.precisions[i]) {
                                None => Err(ErrorCode::ArithmeticError),
                                Some(dy) => Ok(
                                    RedeemSingleQuote {
                                        dy: dy as u64,
                                        fee_amount: fee as u64,
                                        total_supply: new_d,
                                        balances: p.balances.update(i, y as u64),
                                        redeem_amount: net as u64,
                                    },
                                ),
                            },
                        }
                    }
                },
            },
        }
    }
}

/// Prices a redemption of `amount_bal` pool tokens into asset `i` alone at
/// time `now`.
///
/// Fails with `ArgumentValidationFailure` when the amount is zero or `i` is
/// out of range; with `ArithmeticError` when a step overflows, more is
/// redeemed than the supply, the balance cannot be solved, or the payout
/// would not cover the rounding unit.
pub fn get_redeem_single_amount(pool_info: &PoolState, amount_bal: u64, i: usize, now: u64) -> (r:
    Result<RedeemSingleResult, ErrorCode>)
    requires
        pool_info.wf(),
    ensures
        agrees(r, redeem_single_quote(pool_info@, amount_bal, i as int, now)),
{
    if amount_bal == 0 {
        return Err(ErrorCode::ArgumentValidationFailure);
    }
    if i >= pool_info.balances.len() {
        return Err(ErrorCode::ArgumentValidationFailure);
    }
    let a: u64 = match get_a(
        pool_info.a,
        pool_info.a_block,
        pool_info.future_a,
        pool_info.future_a_block,
        now,
    ) {
        Some(v) => v,
        None => return Err(ErrorCode::ArithmeticError),
    };
    let d: u64 = pool_info.total_supply;
    let (amount, fee_amount) = match charge_fee(amount_bal, pool_info.redeem_fee) {
        Some(v) => v,
        None => return Err(ErrorCode::ArithmeticError),
    };
    let total_supply: u64 = match d.checked_sub(amount) {
        Some(v) => v,
        None => return Err(ErrorCode::ArithmeticError),
    };
    let y: u64 = match get_y(pool_info.balances.as_slice(), i, total_supply, a) {
        Some(v) => v,
        None => return Err(ErrorCode::ArithmeticError),
    };
    let dy: u64 = match pay_out(pool_info.balances[i], y, pool_info.precisions[i]) {
        Some(v) => v,
        None => return Err(ErrorCode::ArithmeticError),
    };
    let balances: Vec<u64> = if i == 0 {
        vec![y, pool_info.balances[1]]
    } else {
        vec![pool_info.balances[0], y]
    };
    assert(balances@ =~= pool_info.balances@.update(i as int, y));
    Ok(RedeemSingleResult { dy, fee_amount, total_supply, balances, redeem_amount: amount })
}


/// Raising the swap fee never raises what a swap pays out: with every other
/// input the same, a swap that succeeds at the higher fee also succeeds at
/// the lower one, and pays out no less there.
pub proof fn lemma_swap_fee_monotonic(
    p: PoolModel,
    i: int,
    j: int,
    dx: u64,
    now: u64,
    higher_fee: u64,
)
    requires
        p.swap_fee <= higher_fee,
        swap_quote(PoolModel { swap_fee: higher_fee, ..p }, i, j, dx, now) is Ok,
    ensures
        swap_quote(p, i, j, dx, now) is Ok,
        swap_quote(PoolModel { swap_fee: higher_fee, ..p }, i, j, dx, now)->Ok_0.dy <= swap_quote(
            p,
            i,
            j,
            dx,
            now,
        )->Ok_0.dy,
{
    let a = ramp_value(p.a, p.a_block, p.future_a, p.future_a_block, now)->0;
    let balance_i = (p.balances[i] + dx * p.precisions[i]) as u64;
    let y = y_of(p.balances.update(i, balance_i), j, p.total_supply, a as u64)->0;
    let raw = payout(p.balances[j], y, p.precisions[j])->0;
    lemma_fee_monotonic(raw, p.swap_fee, higher_fee);
    assert(raw <= p.balances[j]) by {
        lemma_div_is_ordered(p.balances[j] - y - 1, p.balances[j] as int, p.precisions[j] as int);
        lemma_div_by_one_bound(p.balances[j] as int, p.precisions[j] as int);
    }
}

/// Dividing by a positive integer does not increase a natural number.
proof fn lemma_div_by_one_bound(x: int, d: int)
    requires
        0 <= x,
        0 < d,
    ensures
        x / d <= x,
{
    lemma_div_is_ordered_by_denominator(x, 1, d);
}

/// A fee grows with its rate.
proof fn lemma_fee_monotonic(amount: int, lower: u64, higher: u64)
    requires
        0 <= amount,
        lower <= higher,
        fee_of(amount, higher) is Some,
    ensures
        fee_of(amount, lower) is Some,
        fee_of(amount, lower)->0 <= fee_of(amount, higher)->0,
{
    lemma_mul_inequality(lower as int, higher as int, amount);
    assert(lower * amount == amount * lower) by (nonlinear_arith);
    assert(higher * amount == amount * higher) by (nonlinear_arith);
    lemma_div_is_ordered(amount * lower, amount * higher, FEE_PRECISION as int);
}

/// With no fees and unit precisions, on a pool whose supply is the
/// invariant of its balances at the amplification in force, minting back
/// exactly what a proportional redemption paid out restores the balances
/// and the supply, and mints exactly the pool tokens redeemed.
pub proof fn lemma_redeem_then_mint(p: PoolModel, amount: u64, now: u64)
    requires
        p.wf(),
        p.mint_fee == 0,
        p.redeem_fee == 0,
        p.precisions == seq![1u64, 1u64],
        ramp_value(p.a, p.a_block, p.future_a, p.future_a_block, now) matches Some(a) && d_of(
            p.balances,
            a as u64,
        ) == Some(p.total_supply as int),
        redeem_proportion_quote(p, amount) is Ok,
        mint_quote(
            PoolModel {
                balances: redeem_proportion_quote(p, amount)->Ok_0.balances,
                total_supply: redeem_proportion_quote(p, amount)->Ok_0.total_supply,
                ..p
            },
            redeem_proportion_quote(p, amount)->Ok_0.amounts,
            now,
        ) is Ok,
    ensures
        ({
            let redeemed = redeem_proportion_quote(p, amount)->Ok_0;
            let minted = mint_quote(
                PoolModel { balances: redeemed.balances, total_supply: redeemed.total_supply, ..p },
                redeemed.amounts,
                now,
            )->Ok_0;
            &&& minted.total_supply == p.total_supply
            &&& minted.balances == p.balances
            &&& minted.mint_amount == redeemed.redeem_amount
        }),
{
    let redeemed = redeem_proportion_quote(p, amount)->Ok_0;
    let after = PoolModel { balances: redeemed.balances, total_supply: redeemed.total_supply, ..p };
    let fee = fee_of(amount as int, 0)->0;
    assert(fee == 0);
    let s0 = share_of(p.balances[0], amount as int, p.total_supply, 1)->0;
    let s1 = share_of(p.balances[1], amount as int, p.total_supply, 1)->0;
    assert(s0.1 == s0.0 && s1.1 == s1.0);
    assert(redeemed.amounts == seq![s0.0 as u64, s1.0 as u64]);
    assert(after.balances[0] == p.balances[0] - s0.0);
    assert(after.balances[1] == p.balances[1] - s1.0);
    assert(redeemed.amounts[0] * 1 == redeemed.amounts[0]);
    assert(redeemed.amounts[1] * 1 == redeemed.amounts[1]);
    assert(deposit(after.balances[0], redeemed.amounts[0], 1) == Some(p.balances[0]));
    assert(deposit(after.balances[1], redeemed.amounts[1], 1) == Some(p.balances[1]));
    let minted = mint_quote(after, redeemed.amounts, now)->Ok_0;
    assert(minted.balances =~= p.balances);
}

} // verus!
