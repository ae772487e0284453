use tapio_sol::convert::{
    convert_balance, convert_balance_back, convert_balance_back_from, convert_balance_back_to,
};
use tapio_sol::errors::ErrorCode;
use tapio_sol::program::{transfer_from_program, transfer_to_program};
use tapio_sol::stake::StakePool;

fn rate() -> StakePool {
    StakePool { total_lamports: 3_000_000, pool_token_supply: 2_000_000 }
}

#[test]
fn convert_balance_to_accounting_value() {
    assert_eq!(convert_balance(1_000_000, &rate()), Ok(1_500_000));
    assert_eq!(convert_balance(3, &rate()), Ok(4));
}

#[test]
fn convert_balance_back_to_native_units() {
    assert_eq!(convert_balance_back(1_500_000, &rate()), Ok(1_000_000));
    assert_eq!(convert_balance_back(4, &rate()), Ok(2));
}

#[test]
fn convert_balance_back_to_rounds_up_by_one() {
    assert_eq!(convert_balance_back_to(1_500_000, &rate()), Ok(1_000_001));
}

#[test]
fn convert_balance_back_from_rounds_down_by_one() {
    assert_eq!(convert_balance_back_from(1_500_000, &rate()), Ok(999_999));
    assert_eq!(convert_balance_back_from(1, &rate()), Err(ErrorCode::ArithmeticError));
}

#[test]
fn convert_balance_fails_on_zero_denominator() {
    let empty = StakePool { total_lamports: 0, pool_token_supply: 0 };
    assert_eq!(convert_balance(10, &empty), Err(ErrorCode::ArithmeticError));
    assert_eq!(convert_balance_back(10, &empty), Err(ErrorCode::ArithmeticError));
}

#[test]
fn convert_balance_fails_when_result_leaves_u64() {
    let steep = StakePool { total_lamports: u64::MAX, pool_token_supply: 1 };
    assert_eq!(convert_balance(2, &steep), Err(ErrorCode::ArithmeticError));
    let shallow = StakePool { total_lamports: 1, pool_token_supply: u64::MAX };
    assert_eq!(convert_balance_back_to(1, &shallow), Err(ErrorCode::ArithmeticError));
}

#[test]
fn transfer_quotes_for_base_asset_are_exact() {
    assert_eq!(transfer_to_program(0, 1_234, &rate()), Ok(1_234));
    assert_eq!(transfer_from_program(0, 1_234, &rate()), Ok(1_234));
}

#[test]
fn transfer_quotes_for_yield_asset_favour_pool() {
    assert_eq!(transfer_to_program(1, 1_500_000, &rate()), Ok(1_000_001));
    assert_eq!(transfer_from_program(1, 1_500_000, &rate()), Ok(999_999));
}
