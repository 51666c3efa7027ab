use anchor_amm::error::AmmError;
use anchor_amm::ledger::{transfer, TokenAccount};
use anchor_amm::pool::{u64_le_bytes, Config, Key};
use anchor_amm::swap::Swap;

const PROGRAM: [u8; 32] = [3u8; 32];
const TRADER: [u8; 32] = [7u8; 32];

fn config_with_bump(seed: u64, bump: u8) -> Config {
    Config {
        seed,
        mint_x: Key { bytes: [1u8; 32] },
        mint_y: Key { bytes: [2u8; 32] },
        fee: 30,
        locked: false,
        config_bump: bump,
    }
}

/// A config with the canonical bump and the address it derives.
fn pool_config(seed: u64) -> (Config, Key) {
    let program = anchor_lang::prelude::Pubkey::new_from_array(PROGRAM);
    let (authority, bump) =
        anchor_lang::prelude::Pubkey::find_program_address(&[b"config", &seed.to_le_bytes()], &program);
    (config_with_bump(seed, bump), Key { bytes: authority.to_bytes() })
}

fn pool(reserve_x: u64, reserve_y: u64, trader_x: u64, trader_y: u64) -> Swap {
    let (config, authority) = pool_config(42);
    Swap {
        user: Key { bytes: TRADER },
        program_id: Key { bytes: PROGRAM },
        config,
        vault_x: TokenAccount { owner: authority, amount: reserve_x },
        vault_y: TokenAccount { owner: authority, amount: reserve_y },
        user_x: TokenAccount { owner: Key { bytes: TRADER }, amount: trader_x },
        user_y: TokenAccount { owner: Key { bytes: TRADER }, amount: trader_y },
    }
}

fn balances(s: &Swap) -> [u64; 4] {
    [s.vault_x.amount, s.vault_y.amount, s.user_x.amount, s.user_y.amount]
}

#[test]
fn swap_x_for_y_moves_both_balances() {
    let mut s = pool(1_000_000, 1_000_000, 5_000, 0);
    assert_eq!(s.swap(true, 1_000, 997), Ok(()));
    assert_eq!(balances(&s), [1_001_000, 999_003, 4_000, 997]);
}

#[test]
fn swap_y_for_x_moves_both_balances() {
    let mut s = pool(1_000_000, 1_000_000, 0, 5_000);
    assert_eq!(s.swap(false, 1_000, 0), Ok(()));
    assert_eq!(balances(&s), [999_003, 1_001_000, 997, 4_000]);
}

#[test]
fn minimum_above_output_is_slippage() {
    let mut s = pool(1_000_000, 1_000_000, 5_000, 0);
    assert_eq!(s.swap(true, 1_000, 998), Err(AmmError::SlippageExceeded));
    assert_eq!(balances(&s), [1_000_000, 1_000_000, 5_000, 0]);
}

#[test]
fn quote_of_worked_example() {
    let (config, _) = pool_config(42);
    assert_eq!(config.quote(1_000_000, 1_000_000, 1_000, 998), Err(AmmError::SlippageExceeded));
    assert_eq!(config.quote(1_000_000, 1_000_000, 1_000, 997), Ok(997));
}

#[test]
fn locked_pool_refuses_swaps() {
    let mut s = pool(1_000_000, 1_000_000, 5_000, 0);
    s.config.locked = true;
    assert_eq!(s.swap(true, 1_000, 0), Err(AmmError::PoolLocked));
    assert_eq!(balances(&s), [1_000_000, 1_000_000, 5_000, 0]);
    // the lock is checked before the amount
    assert_eq!(s.swap(true, 0, 0), Err(AmmError::PoolLocked));
}

#[test]
fn zero_input_is_invalid() {
    let mut s = pool(1_000_000, 1_000_000, 5_000, 0);
    assert_eq!(s.swap(true, 0, 0), Err(AmmError::InvalidAmount));
    let mut empty = pool(0, 0, 5_000, 0);
    assert_eq!(empty.swap(false, 0, 0), Err(AmmError::InvalidAmount));
    assert_eq!(balances(&empty), [0, 0, 5_000, 0]);
}

#[test]
fn empty_pool_output_fails_slippage_not_arithmetic() {
    let mut s = pool(0, 0, 5_000, 0);
    assert_eq!(s.swap(true, 1_000, 1), Err(AmmError::SlippageExceeded));
    assert_eq!(s.swap(true, 1_000, 0), Ok(()));
    assert_eq!(balances(&s), [1_000, 0, 4_000, 0]);
}

#[test]
fn wrong_pool_authority_rolls_back_inbound_transfer() {
    let mut s = pool(1_000_000, 1_000_000, 5_000, 0);
    s.vault_y.owner = Key { bytes: [9u8; 32] };
    assert_eq!(s.swap(true, 1_000, 0), Err(AmmError::AuthorityMismatch));
    assert_eq!(balances(&s), [1_000_000, 1_000_000, 5_000, 0]);
}

#[test]
fn wrong_bump_rolls_back_inbound_transfer() {
    let mut s = pool(1_000_000, 1_000_000, 5_000, 0);
    s.config.config_bump = s.config.config_bump.wrapping_sub(1);
    let r = s.swap(true, 1_000, 0);
    assert_eq!(r, Err(AmmError::AuthorityMismatch));
    assert_eq!(balances(&s), [1_000_000, 1_000_000, 5_000, 0]);
}

#[test]
fn output_overflow_rolls_back_inbound_transfer() {
    let mut s = pool(1_000_000, 1_000_000, 5_000, u64::MAX);
    assert_eq!(s.swap(true, 1_000, 0), Err(AmmError::BalanceOverflow));
    assert_eq!(balances(&s), [1_000_000, 1_000_000, 5_000, u64::MAX]);
}

#[test]
fn trader_without_funds_is_refused() {
    let mut s = pool(1_000_000, 1_000_000, 999, 0);
    assert_eq!(s.swap(true, 1_000, 0), Err(AmmError::InsufficientFunds));
    assert_eq!(balances(&s), [1_000_000, 1_000_000, 999, 0]);
}

#[test]
fn trader_must_sign_for_own_account() {
    let mut s = pool(1_000_000, 1_000_000, 5_000, 0);
    s.user = Key { bytes: [8u8; 32] };
    assert_eq!(s.swap(true, 1_000, 0), Err(AmmError::AuthorityMismatch));
    assert_eq!(balances(&s), [1_000_000, 1_000_000, 5_000, 0]);
}

#[test]
fn fee_rate_above_full_is_underflow() {
    let mut s = pool(1_000_000, 1_000_000, 5_000, 0);
    s.config.fee = 20_000;
    assert_eq!(s.swap(true, 1_000, 0), Err(AmmError::Underflow));
    assert_eq!(balances(&s), [1_000_000, 1_000_000, 5_000, 0]);
}

#[test]
fn transfer_checks_funds_then_owner_then_capacity() {
    let a = Key { bytes: [4u8; 32] };
    let b = Key { bytes: [5u8; 32] };
    let from = TokenAccount { owner: a, amount: 10 };
    let to = TokenAccount { owner: b, amount: 1 };
    assert_eq!(transfer(from, to, &b, 11).err(), Some(AmmError::InsufficientFunds));
    assert_eq!(transfer(from, to, &b, 10).err(), Some(AmmError::AuthorityMismatch));
    let full = TokenAccount { owner: b, amount: u64::MAX };
    assert_eq!(transfer(from, full, &a, 1).err(), Some(AmmError::BalanceOverflow));
    let (f, t) = transfer(from, to, &a, 4).unwrap();
    assert_eq!((f.amount, t.amount), (6, 5));
}

#[test]
fn key_comparison_reads_every_byte() {
    let a = Key { bytes: [4u8; 32] };
    let mut bytes = [4u8; 32];
    assert!(a.same(&Key { bytes }));
    bytes[31] = 5;
    assert!(!a.same(&Key { bytes }));
}

#[test]
fn seed_bytes_are_little_endian() {
    assert_eq!(u64_le_bytes(0x0102_0304_0506_0708), vec![8, 7, 6, 5, 4, 3, 2, 1]);
    assert_eq!(u64_le_bytes(42), 42u64.to_le_bytes().to_vec());
}

#[test]
fn signer_seeds_are_tag_seed_and_bump() {
    let config = config_with_bump(42, 254);
    assert_eq!(
        config.signer_seeds(),
        vec![b"config".to_vec(), 42u64.to_le_bytes().to_vec(), vec![254u8]]
    );
}

#[test]
fn outbound_transfer_is_signed_by_the_derived_address() {
    // The reserves are owned by the canonical program address of the seeds:
    // the swap settles only if the library derives that very address.
    let mut s = pool(1_000_000, 1_000_000, 5_000, 0);
    assert_ne!(s.vault_y.owner.bytes, PROGRAM);
    assert_eq!(s.swap(true, 1_000, 997), Ok(()));
    // A reserve owned by the program id itself is not the derived address.
    let mut t = pool(1_000_000, 1_000_000, 5_000, 0);
    t.vault_y.owner = Key { bytes: PROGRAM };
    assert_eq!(t.swap(true, 1_000, 997), Err(AmmError::AuthorityMismatch));
}

#[test]
fn full_input_reserve_is_a_balance_overflow_not_arithmetic() {
    let mut s = pool(u64::MAX, 1, 5, 0);
    s.config.fee = 0;
    assert_eq!(s.config.quote(u64::MAX, 1, 1, 0), Ok(1));
    assert_eq!(s.swap(true, 1, 0), Err(AmmError::BalanceOverflow));
    assert_eq!(balances(&s), [u64::MAX, 1, 5, 0]);
}
