//! Failures of the engine's operations.
use vstd::prelude::*;

verus! {

/// Why an operation was refused. No operation writes any state when it fails.
#[derive(Debug, Clone, Copy, PartialEq, Eq, Structural)]
pub enum ErrorCode {
    /// The pool was already initialized.
    AccountInitialized,
    /// A checked step overflowed, underflowed or divided by zero.
    ArithmeticError,
    /// An argument is structurally invalid: wrong number of amounts, a zero
    /// amount where one is required, an index out of range, equal indices.
    ArgumentValidationFailure,
    /// A token does not belong to the pool.
    TokenValidationFailure,
    /// Fewer pool tokens would be minted than the caller's minimum.
    MintUnderMin,
    /// The swap would pay out less than the caller's minimum.
    SwapUnderMin,
    /// The redemption would pay out less than the caller's minimum.
    RedeemUnderMin,
    /// Reconciled balances give an invariant below the outstanding supply.
    PoolImbalanced,
    /// The signer may not perform the operation.
    Unauthorized,
}

/// `r` is the checked computation whose exact value is `v`: `Ok` with that
/// value when there is one, `ArithmeticError` when there is none.
pub open spec fn checked_result(r: Result<u64, ErrorCode>, v: Option<int>) -> bool {
    match r {
        Ok(x) => v == Some(x as int),
        Err(e) => v is None && e == ErrorCode::ArithmeticError,
    }
}

} // verus!
