use vstd::prelude::*;
use crate::curve::{FEE_DENOMINATOR, amount_out_of, curve_fails, lemma_fee_below_input};
use crate::error::AmmError;
use crate::ledger::{TokenAccount, transfer, transfer_result};
use crate::pool::{Config, Key, authority_seeds, program_address_of, quote_result};

verus! {

/// The accounts one swap reads and moves: the trader, the pool's settings,
/// its two reserves and the trader's two balances.
#[derive(Clone, Copy, Debug)]
pub struct Swap {
    /// The trader, who signs the inbound transfer.
    pub user: Key,
    /// The program under which the pool authority is derived.
    pub program_id: Key,
    pub config: Config,
    pub vault_x: TokenAccount,
    pub vault_y: TokenAccount,
    pub user_x: TokenAccount,
    pub user_y: TokenAccount,
}

impl Swap {
    /// The reserves as (input, output) for a swap of X for Y when `is_x`,
    /// of Y for X otherwise.
    pub open spec fn reserves(self, is_x: bool) -> (u64, u64) {
        if is_x {
            (self.vault_x.amount, self.vault_y.amount)
        } else {
            (self.vault_y.amount, self.vault_x.amount)
        }
    }

    /// The accounts after the trader pays `amount` into the reserve of X
    /// when `is_x`, of Y otherwise.
    pub open spec fn pay_in(self, is_x: bool, amount: u64) -> Result<Swap, AmmError> {
        if is_x {
            match transfer_result(self.user_x, self.vault_x, self.user.bytes@, amount) {
                Ok((u, v)) => Ok(Swap { user_x: u, vault_x: v, ..self }),
                Err(e) => Err(e),
            }
        } else {
            match transfer_result(self.user_y, self.vault_y, self.user.bytes@, amount) {
                Ok((u, v)) => Ok(Swap { user_y: u, vault_y: v, ..self }),
                Err(e) => Err(e),
            }
        }
    }

    /// The accounts after the pool pays `amount` out of its reserve of X to
    /// the trader when `is_x`, of Y otherwise, signed by the derived pool
    /// authority. A derivation that gives no address fails as a wrong signer.
    pub open spec fn pay_out(self, is_x: bool, amount: u64) -> Result<Swap, AmmError> {
        match program_address_of(authority_seeds(self.config.seed, self.config.config_bump), self.program_id.bytes@) {
            None => Err(AmmError::AuthorityMismatch),
            Some(signer) => if is_x {
                match transfer_result(self.vault_x, self.user_x, signer, amount) {
                    Ok((v, u)) => Ok(Swap { user_x: u, vault_x: v, ..self }),
                    Err(e) => Err(e),
                }
            } else {
                match transfer_result(self.vault_y, self.user_y, signer, amount) {
                    Ok((v, u)) => Ok(Swap { user_y: u, vault_y: v, ..self }),
                    Err(e) => Err(e),
                }
            },
        }
    }

    /// The accounts after a whole swap, or the error that stops it.
    pub open spec fn swap_result(self, is_x: bool, amount_in: u64, min_amount_out: u64) -> Result<Swap, AmmError> {
        let (reserve_in, reserve_out) = self.reserves(is_x);
        match quote_result(self.config, reserve_in, reserve_out, amount_in, min_amount_out) {
            Err(e) => Err(e),
            Ok(amount_out) => match self.pay_in(is_x, amount_in) {
                Err(e) => Err(e),
                Ok(s) => s.pay_out(!is_x, amount_out),
            },
        }
    }

    /// Moves `amount` from the trader's account of X into the reserve of X
    /// when `is_x`, of Y otherwise, signed by the trader. Nothing changes on
    /// failure.
    fn transfer_tokens_to_vault(&mut self, is_x: bool, amount: u64) -> (r: Result<(), AmmError>)
        ensures
            match old(self).pay_in(is_x, amount) {
                Ok(s) => r is Ok && *final(self) == s,
                Err(e) => r == Err::<(), AmmError>(e) && *final(self) == *old(self),
            },
    {
        let (from, to) = if is_x {
            (self.user_x, self.vault_x)
        } else {
            (self.user_y, self.vault_y)
        };
        match transfer(from, to, &self.user, amount) {
            Ok((f, t)) => {
                if is_x {
                    self.user_x = f;
                    self.vault_x = t;
                } else {
                    self.user_y = f;
                    self.vault_y = t;
                }
                Ok(())
            },
            Err(e) => Err(e),
        }
    }

    /// Moves `amount` from the reserve of X to the trader's account of X when
    /// `is_x`, of Y otherwise, signed by the derived pool authority. Nothing
    /// changes on failure.
    fn transfer_tokens_from_vault(&mut self, is_x: bool, amount: u64) -> (r: Result<(), AmmError>)
        ensures
            match old(self).pay_out(is_x, amount) {
                Ok(s) => r is Ok && *final(self) == s,
                Err(e) => r == Err::<(), AmmError>(e) && *final(self) == *old(self),
            },
    {
        let signer = match self.config.derive_authority(&self.program_id) {
            Some(k) => k,
            None => return Err(AmmError::AuthorityMismatch),
        };
        let (from, to) = if is_x {
            (self.vault_x, self.user_x)
        } else {
            (self.vault_y, self.user_y)
        };
        match transfer(from, to, &signer, amount) {
            Ok((f, t)) => {
                if is_x {
                    self.vault_x = f;
                    self.user_x = t;
                } else {
                    self.vault_y = f;
                    self.user_y = t;
                }
                Ok(())
            },
            Err(e) => Err(e),
        }
    }

    /// Swaps `amount_in` of X for Y when `is_x`, of Y for X otherwise, and
    /// requires at least `min_amount_out` in return. Either both transfers
    /// happen or no account changes.
    pub fn swap(&mut self, is_x: bool, amount_in: u64, min_amount_out: u64) -> (r: Result<(), AmmError>)
        ensures
            match old(self).swap_result(is_x, amount_in, min_amount_out) {
                Ok(s) => r is Ok && *final(self) == s,
                Err(e) => r == Err::<(), AmmError>(e) && *final(self) == *old(self),
            },
            r is Err ==> *final(self) == *old(self),
            old(self).config.locked ==> r == Err::<(), AmmError>(AmmError::PoolLocked),
            !old(self).config.locked && amount_in == 0 ==> r == Err::<(), AmmError>(AmmError::InvalidAmount),
            ({
                let (reserve_in, reserve_out) = old(self).reserves(is_x);
                !old(self).config.locked && amount_in > 0
                    && !curve_fails(amount_in as int, reserve_in as int, old(self).config.fee as int)
                    && amount_out_of(amount_in as int, reserve_in as int, reserve_out as int, old(self).config.fee as int) < min_amount_out
                    ==> r == Err::<(), AmmError>(AmmError::SlippageExceeded)
            }),
            ({
                let (reserve_in, reserve_out) = old(self).reserves(is_x);
                quote_result(old(self).config, reserve_in, reserve_out, amount_in, min_amount_out) is Ok
                    && old(self).pay_in(is_x, amount_in) is Ok
                    && old(self).pay_in(is_x, amount_in).unwrap().pay_out(
                        !is_x,
                        quote_result(old(self).config, reserve_in, reserve_out, amount_in, min_amount_out).unwrap(),
                    ) is Err
                    ==> r is Err && *final(self) == *old(self)
            }),
            !old(self).config.locked && amount_in > 0 && old(self).config.fee < FEE_DENOMINATOR
                ==> r != Err::<(), AmmError>(AmmError::Overflow) && r != Err::<(), AmmError>(AmmError::Underflow),
    {
        let (reserve_in, reserve_out) = if is_x {
            (self.vault_x.amount, self.vault_y.amount)
        } else {
            (self.vault_y.amount, self.vault_x.amount)
        };
        proof {
            if !self.config.locked && amount_in > 0 && self.config.fee < FEE_DENOMINATOR {
                lemma_fee_below_input(amount_in as int, self.config.fee as int);
            }
        }
        let amount_out = match self.config.quote(reserve_in, reserve_out, amount_in, min_amount_out) {
            Ok(v) => v,
            Err(e) => return Err(e),
        };
        let before = *self;
        match self.transfer_tokens_to_vault(is_x, amount_in) {
            Ok(()) => {},
            Err(e) => return Err(e),
        }
        match self.transfer_tokens_from_vault(!is_x, amount_out) {
            Ok(()) => Ok(()),
            Err(e) => {
                *self = before;
                Err(e)
            },
        }
    }
}

} // verus!
