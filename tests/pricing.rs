use tapio_sol::errors::ErrorCode;
use tapio_sol::pool::{
    get_mint_amount, get_redeem_proportion_amount, get_redeem_single_amount, get_swap_amount,
};
use tapio_sol::state::PoolState;

fn pool(balances: [u64; 2], total_supply: u64) -> PoolState {
    PoolState {
        mint_fee: 0,
        swap_fee: 0,
        redeem_fee: 0,
        total_supply,
        a: 100,
        a_block: 0,
        future_a: 100,
        future_a_block: 0,
        balances: balances.to_vec(),
        precisions: vec![1, 1],
        pool_initialized: true,
    }
}

#[test]
fn mint_single_sided_into_empty_pool_fails_on_zero_balance() {
    // The invariant of the balances [1_000_000, 0] divides by the zero balance.
    let p = pool([0, 0], 0);
    assert_eq!(get_mint_amount(&p, &[1_000_000, 0], 10), Err(ErrorCode::ArithmeticError));
}

#[test]
fn mint_into_empty_pool() {
    let p = pool([0, 0], 0);
    let r = get_mint_amount(&p, &[1_000_000, 1_000_000], 10).unwrap();
    assert_eq!(r.total_supply, 2_000_000);
    assert_eq!(r.mint_amount, 2_000_000);
    assert_eq!(r.fee_amount, 0);
    assert_eq!(r.balances, vec![1_000_000, 1_000_000]);
}

#[test]
fn mint_withholds_fee() {
    let mut p = pool([0, 0], 0);
    p.mint_fee = 100_000_000;
    let r = get_mint_amount(&p, &[1_000_000, 1_000_000], 10).unwrap();
    assert_eq!(r.fee_amount, 20_000);
    assert_eq!(r.mint_amount, 1_980_000);
    assert_eq!(r.total_supply, 2_000_000);
}

#[test]
fn mint_into_live_pool() {
    let p = pool([1_000_000, 1_000_000], 2_000_000);
    let r = get_mint_amount(&p, &[100_000, 50_000], 10).unwrap();
    assert_eq!(r.total_supply, 2_149_709);
    assert_eq!(r.mint_amount, 149_709);
    assert_eq!(r.balances, vec![1_100_000, 1_050_000]);
}

#[test]
fn mint_scaled_amounts_scale_supply() {
    let p = pool([0, 0], 0);
    let one = get_mint_amount(&p, &[1_000, 3_000], 10).unwrap();
    let five = get_mint_amount(&p, &[5_000, 15_000], 10).unwrap();
    assert_eq!(one.total_supply, 3_718);
    assert_eq!(five.total_supply, 18_589);
    assert!(five.total_supply.abs_diff(5 * one.total_supply) <= 5);
}

#[test]
fn mint_rejects_wrong_amount_count() {
    let p = pool([0, 0], 0);
    assert_eq!(get_mint_amount(&p, &[1, 2, 3], 10), Err(ErrorCode::ArgumentValidationFailure));
}

#[test]
fn mint_single_sided_into_live_pool() {
    let p = pool([1_000_000, 1_000_000], 2_000_000);
    let r = get_mint_amount(&p, &[100_000, 0], 10).unwrap();
    assert_eq!(r.balances, vec![1_100_000, 1_000_000]);
    assert_eq!(r.total_supply, 2_098_808);
    assert_eq!(r.mint_amount, 98_808);
}

#[test]
fn mint_rejects_all_zero_amounts_into_live_pool() {
    let p = pool([1_000_000, 1_000_000], 2_000_000);
    assert_eq!(get_mint_amount(&p, &[0, 0], 10), Err(ErrorCode::ArgumentValidationFailure));
}

#[test]
fn mint_of_nothing_into_empty_pool_mints_nothing() {
    let p = pool([0, 0], 0);
    let r = get_mint_amount(&p, &[0, 0], 10).unwrap();
    assert_eq!(r.total_supply, 0);
    assert_eq!(r.mint_amount, 0);
}

#[test]
fn mint_fails_when_ramp_not_started() {
    let mut p = pool([0, 0], 0);
    p.a_block = 20;
    p.future_a_block = 30;
    assert_eq!(get_mint_amount(&p, &[1, 1], 10), Err(ErrorCode::ArithmeticError));
}

#[test]
fn swap_pays_slightly_less_than_deposit() {
    let p = pool([1_000_000, 1_000_000], 2_000_000);
    let r = get_swap_amount(&p, 0, 1, 100_000, 10).unwrap();
    assert_eq!(r.dx, 100_000);
    assert_eq!(r.y, 904_772);
    assert_eq!(r.dy, 95_227);
    assert_eq!(r.balance_i, 1_100_000);
    assert!(r.dy < 100_000);
}

#[test]
fn swap_withholds_fee() {
    let mut p = pool([1_000_000, 1_000_000], 2_000_000);
    p.swap_fee = 100_000_000;
    let r = get_swap_amount(&p, 0, 1, 100_000, 10).unwrap();
    assert_eq!(r.dy, 94_275);
}

#[test]
fn swap_output_does_not_grow_with_fee() {
    let mut last = u64::MAX;
    for fee in [0u64, 1_000, 10_000_000, 100_000_000, 5_000_000_000, 10_000_000_000] {
        let mut p = pool([1_000_000, 1_000_000], 2_000_000);
        p.swap_fee = fee;
        let dy = get_swap_amount(&p, 0, 1, 100_000, 10).unwrap().dy;
        assert!(dy <= last);
        last = dy;
    }
    assert_eq!(last, 0);
}

#[test]
fn swap_rejects_invalid_arguments() {
    let p = pool([1_000_000, 1_000_000], 2_000_000);
    assert_eq!(get_swap_amount(&p, 0, 0, 100, 10), Err(ErrorCode::ArgumentValidationFailure));
    assert_eq!(get_swap_amount(&p, 0, 1, 0, 10), Err(ErrorCode::ArgumentValidationFailure));
    assert_eq!(get_swap_amount(&p, 2, 1, 100, 10), Err(ErrorCode::ArgumentValidationFailure));
    assert_eq!(get_swap_amount(&p, 0, 2, 100, 10), Err(ErrorCode::ArgumentValidationFailure));
}

#[test]
fn swap_fails_when_deposit_overflows() {
    let p = pool([u64::MAX - 10, 1_000_000], 2_000_000);
    assert_eq!(get_swap_amount(&p, 0, 1, 100, 10), Err(ErrorCode::ArithmeticError));
}

#[test]
fn redeem_proportion_pays_shares() {
    let p = pool([1_000_000, 1_000_000], 2_000_000);
    let r = get_redeem_proportion_amount(&p, 200_000).unwrap();
    assert_eq!(r.amounts, vec![100_000, 100_000]);
    assert_eq!(r.balances, vec![900_000, 900_000]);
    assert_eq!(r.fee_amount, 0);
    assert_eq!(r.total_supply, 1_800_000);
    assert_eq!(r.redeem_amount, 200_000);
}

#[test]
fn redeem_proportion_withholds_fee() {
    let mut p = pool([1_000_000, 1_000_000], 2_000_000);
    p.redeem_fee = 100_000_000;
    let r = get_redeem_proportion_amount(&p, 200_000).unwrap();
    assert_eq!(r.fee_amount, 2_000);
    assert_eq!(r.redeem_amount, 198_000);
    assert_eq!(r.amounts, vec![99_000, 99_000]);
    assert_eq!(r.total_supply, 1_802_000);
}

#[test]
fn redeem_proportion_then_mint_restores_supply() {
    let p = pool([1_000_000, 3_000_000], 3_717_778);
    let r = get_redeem_proportion_amount(&p, 371_777).unwrap();
    assert_eq!(r.balances, vec![900_001, 2_700_001]);
    assert_eq!(r.total_supply, 3_346_001);
    let after = pool([r.balances[0], r.balances[1]], r.total_supply);
    let m = get_mint_amount(&after, &r.amounts, 10).unwrap();
    assert_eq!(m.total_supply, 3_717_778);
    assert_eq!(m.balances, vec![1_000_000, 3_000_000]);
    assert_eq!(m.mint_amount, 371_777);
}

#[test]
fn redeem_proportion_rejects_zero_amount() {
    let p = pool([1_000_000, 1_000_000], 2_000_000);
    assert_eq!(get_redeem_proportion_amount(&p, 0), Err(ErrorCode::ArgumentValidationFailure));
}

#[test]
fn redeem_proportion_fails_beyond_supply() {
    let p = pool([1_000_000, 1_000_000], 2_000_000);
    assert_eq!(get_redeem_proportion_amount(&p, 2_000_001), Err(ErrorCode::ArithmeticError));
}

#[test]
fn redeem_single_pays_one_asset() {
    let p = pool([1_000_000, 1_000_000], 2_000_000);
    let r = get_redeem_single_amount(&p, 100_000, 0, 10).unwrap();
    assert_eq!(r.dy, 98_717);
    assert_eq!(r.balances, vec![901_282, 1_000_000]);
    assert_eq!(r.total_supply, 1_900_000);
    assert_eq!(r.fee_amount, 0);
    assert_eq!(r.redeem_amount, 100_000);
}

#[test]
fn redeem_single_withholds_fee() {
    let mut p = pool([1_000_000, 1_000_000], 2_000_000);
    p.redeem_fee = 100_000_000;
    let r = get_redeem_single_amount(&p, 100_000, 1, 10).unwrap();
    assert_eq!(r.fee_amount, 1_000);
    assert_eq!(r.redeem_amount, 99_000);
    assert_eq!(r.dy, 97_743);
    assert_eq!(r.balances, vec![1_000_000, 902_256]);
    assert_eq!(r.total_supply, 1_901_000);
}

#[test]
fn redeem_single_rejects_invalid_arguments() {
    let p = pool([1_000_000, 1_000_000], 2_000_000);
    assert_eq!(get_redeem_single_amount(&p, 0, 0, 10), Err(ErrorCode::ArgumentValidationFailure));
    assert_eq!(get_redeem_single_amount(&p, 10, 2, 10), Err(ErrorCode::ArgumentValidationFailure));
}

#[test]
fn redeem_single_fails_beyond_supply() {
    let p = pool([1_000_000, 1_000_000], 2_000_000);
    assert_eq!(get_redeem_single_amount(&p, 2_000_001, 0, 10), Err(ErrorCode::ArithmeticError));
}
