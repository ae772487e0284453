use tapio_sol::errors::ErrorCode;
use tapio_sol::program::{
    collect_fees, initialize_pool, mint, modify_a, redeem_proportion, redeem_single, swap,
    INIT_SOL,
};
use tapio_sol::stake::StakePool;
use tapio_sol::state::PoolState;

fn rate() -> StakePool {
    StakePool { total_lamports: 2_000_000, pool_token_supply: 1_000_000 }
}

fn pool(total_supply: u64) -> PoolState {
    PoolState {
        mint_fee: 0,
        swap_fee: 0,
        redeem_fee: 0,
        total_supply,
        a: 100,
        a_block: 0,
        future_a: 100,
        future_a_block: 0,
        balances: vec![0, 0],
        precisions: vec![1, 1],
        pool_initialized: true,
    }
}

// Custody holding the equivalent of 1_000_000 accounting units of each asset.
const SOL: u64 = INIT_SOL + 1_000_000;
const JITO: u64 = 500_000;

#[test]
fn collect_fees_refreshes_balances_and_supply() {
    let mut p = pool(1_900_000);
    assert_eq!(collect_fees(SOL, JITO, &mut p, &rate(), 10), Ok(()));
    assert_eq!(p.balances, vec![1_000_000, 1_000_000]);
    assert_eq!(p.total_supply, 2_000_000);
}

#[test]
fn collect_fees_detects_imbalance() {
    let mut p = pool(2_000_001);
    assert_eq!(collect_fees(SOL, JITO, &mut p, &rate(), 10), Err(ErrorCode::PoolImbalanced));
    assert_eq!(p.balances, vec![0, 0]);
    assert_eq!(p.total_supply, 2_000_001);
}

#[test]
fn collect_fees_fails_below_reserved_floor() {
    let mut p = pool(0);
    assert_eq!(
        collect_fees(INIT_SOL - 1, JITO, &mut p, &rate(), 10),
        Err(ErrorCode::ArithmeticError)
    );
}

#[test]
fn mint_commits_new_snapshot() {
    let mut p = pool(2_000_000);
    let r = mint(&mut p, SOL, JITO, &rate(), &[100_000, 50_000], 149_709, 10).unwrap();
    assert_eq!(r.mint_amount, 149_709);
    assert_eq!(p.total_supply, 2_149_709);
    assert_eq!(p.balances, vec![1_100_000, 1_050_000]);
}

#[test]
fn mint_under_min_leaves_pool_unchanged() {
    let mut p = pool(2_000_000);
    assert_eq!(
        mint(&mut p, SOL, JITO, &rate(), &[100_000, 50_000], 149_710, 10),
        Err(ErrorCode::MintUnderMin)
    );
    assert_eq!(p.total_supply, 2_000_000);
    assert_eq!(p.balances, vec![0, 0]);
}

#[test]
fn swap_commits_new_balances() {
    let mut p = pool(2_000_000);
    let r = swap(&mut p, SOL, JITO, &rate(), 0, 1, 100_000, 95_227, 10).unwrap();
    assert_eq!(r.dy, 95_227);
    assert_eq!(p.balances, vec![1_100_000, 904_772]);
    assert_eq!(p.total_supply, 2_000_000);
}

#[test]
fn swap_under_min_fails() {
    let mut p = pool(2_000_000);
    assert_eq!(
        swap(&mut p, SOL, JITO, &rate(), 0, 1, 100_000, 95_228, 10),
        Err(ErrorCode::SwapUnderMin)
    );
    assert_eq!(p.balances, vec![0, 0]);
}

#[test]
fn redeem_proportion_commits_new_snapshot() {
    let mut p = pool(2_000_000);
    let r = redeem_proportion(&mut p, SOL, JITO, &rate(), 200_000, &[100_000, 100_000], 10)
        .unwrap();
    assert_eq!(r.amounts, vec![100_000, 100_000]);
    assert_eq!(p.balances, vec![900_000, 900_000]);
    assert_eq!(p.total_supply, 1_800_000);
}

#[test]
fn redeem_proportion_under_min_fails() {
    let mut p = pool(2_000_000);
    assert_eq!(
        redeem_proportion(&mut p, SOL, JITO, &rate(), 200_000, &[0, 100_001], 10),
        Err(ErrorCode::RedeemUnderMin)
    );
    assert_eq!(p.total_supply, 2_000_000);
}

#[test]
fn redeem_proportion_rejects_wrong_minimum_count() {
    let mut p = pool(2_000_000);
    assert_eq!(
        redeem_proportion(&mut p, SOL, JITO, &rate(), 200_000, &[0], 10),
        Err(ErrorCode::ArgumentValidationFailure)
    );
}

#[test]
fn redeem_single_commits_new_snapshot() {
    let mut p = pool(2_000_000);
    let r = redeem_single(&mut p, SOL, JITO, &rate(), 100_000, 0, 98_717, 10).unwrap();
    assert_eq!(r.dy, 98_717);
    assert_eq!(p.balances, vec![901_282, 1_000_000]);
    assert_eq!(p.total_supply, 1_900_000);
}

#[test]
fn redeem_single_under_min_fails() {
    let mut p = pool(2_000_000);
    assert_eq!(
        redeem_single(&mut p, SOL, JITO, &rate(), 100_000, 0, 98_718, 10),
        Err(ErrorCode::RedeemUnderMin)
    );
    assert_eq!(p.total_supply, 2_000_000);
}

#[test]
fn modify_a_starts_new_ramp() {
    let mut p = pool(0);
    p.a_block = 0;
    p.future_a = 300;
    p.future_a_block = 20;
    assert_eq!(modify_a(&mut p, 500, 40, 10), Ok(()));
    assert_eq!(p.a, 200);
    assert_eq!(p.a_block, 10);
    assert_eq!(p.future_a, 500);
    assert_eq!(p.future_a_block, 40);
}

#[test]
fn modify_a_rejects_lower_target_or_past_end() {
    let mut p = pool(0);
    assert_eq!(modify_a(&mut p, 99, 40, 10), Err(ErrorCode::ArgumentValidationFailure));
    assert_eq!(modify_a(&mut p, 200, 9, 10), Err(ErrorCode::ArgumentValidationFailure));
    assert_eq!(p.a, 100);
    assert_eq!(p.future_a_block, 0);
}

#[test]
fn initialize_pool_sets_up_empty_pool() {
    let mut p = pool(0);
    p.pool_initialized = false;
    assert_eq!(initialize_pool(&mut p, 1, 2, 3, 100, 7), Ok(()));
    assert_eq!((p.mint_fee, p.swap_fee, p.redeem_fee), (1, 2, 3));
    assert_eq!((p.a, p.a_block, p.future_a, p.future_a_block), (100, 7, 100, 7));
    assert_eq!(p.balances, vec![0, 0]);
    assert_eq!(p.precisions, vec![1, 1]);
    assert_eq!(p.total_supply, 0);
    assert!(p.pool_initialized);
    assert_eq!(initialize_pool(&mut p, 1, 2, 3, 100, 8), Err(ErrorCode::AccountInitialized));
}
