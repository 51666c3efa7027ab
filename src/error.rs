use vstd::prelude::*;

verus! {

/// Every way a swap can be rejected. Each one aborts the whole operation.
#[derive(Clone, Copy, Debug, PartialEq, Eq, Structural)]
pub enum AmmError {
    /// The pool is locked and accepts no swaps.
    PoolLocked,
    /// The input amount is zero.
    InvalidAmount,
    /// An intermediate value does not fit its integer width.
    Overflow,
    /// A subtraction went below zero, or a divisor was zero.
    Underflow,
    /// The output is below the caller's minimum.
    SlippageExceeded,
    /// The source account holds less than the amount to move.
    InsufficientFunds,
    /// The signer of a transfer does not own the source account.
    AuthorityMismatch,
    /// A transfer would raise the destination balance past `u64::MAX`.
    BalanceOverflow,
}

} // verus!
