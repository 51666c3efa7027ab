use vstd::prelude::*;
use crate::error::AmmError;
use crate::pool::Key;

verus! {

/// A token balance and the address allowed to move it.
#[derive(Clone, Copy, Debug)]
pub struct TokenAccount {
    pub owner: Key,
    pub amount: u64,
}

/// The two accounts after `amount` moves from `from` to `to` on the word of
/// `signer`, or the first check that fails: funds, then ownership, then the
/// destination's capacity.
pub open spec fn transfer_result(from: TokenAccount, to: TokenAccount, signer: Seq<u8>, amount: u64) -> Result<(TokenAccount, TokenAccount), AmmError> {
    if from.amount < amount {
        Err(AmmError::InsufficientFunds)
    } else if signer != from.owner.bytes@ {
        Err(AmmError::AuthorityMismatch)
    } else if to.amount + amount > u64::MAX {
        Err(AmmError::BalanceOverflow)
    } else {
        Ok((
            TokenAccount { amount: (from.amount - amount) as u64, ..from },
            TokenAccount { amount: (to.amount + amount) as u64, ..to },
        ))
    }
}

/// Moves `amount` from `from` to `to`, signed by `signer`.
pub fn transfer(from: TokenAccount, to: TokenAccount, signer: &Key, amount: u64) -> (r: Result<(TokenAccount, TokenAccount), AmmError>)
    ensures
        r == transfer_result(from, to, signer.bytes@, amount),
{
    if from.amount < amount {
        return Err(AmmError::InsufficientFunds);
    }
    if !signer.same(&from.owner) {
        return Err(AmmError::AuthorityMismatch);
    }
    match to.amount.checked_add(amount) {
        Some(v) => Ok((TokenAccount { amount: from.amount - amount, ..from }, TokenAccount { amount: v, ..to })),
        None => Err(AmmError::BalanceOverflow),
    }
}

} // verus!
