use vstd::prelude::*;
use crate::curve::{amount_out_of, compute_amount_out, curve_fails};
use crate::error::AmmError;

verus! {

/// A 32-byte account address.
#[derive(Clone, Copy, Debug)]
pub struct Key {
    pub bytes: [u8; 32],
}

impl Key {
    /// Whether two addresses are the same bytes.
    pub fn same(&self, other: &Key) -> (r: bool)
        ensures
            r == (self.bytes@ == other.bytes@),
    {
        let mut i: usize = 0;
        while i < 32
            invariant
                i <= 32,
                self.bytes@.len() == 32,
                other.bytes@.len() == 32,
                forall|j: int| 0 <= j < i ==> self.bytes@[j] == other.bytes@[j],
            decreases 32 - i,
        {
            if self.bytes[i] != other.bytes[i] {
                return false;
            }
            i = i + 1;
        }
        assert(self.bytes@ =~= other.bytes@);
        true
    }
}

/// The settings of one pool. `seed` and `config_bump` derive the address
/// that owns both reserve accounts.
#[derive(Clone, Copy, Debug)]
pub struct Config {
    pub seed: u64,
    pub mint_x: Key,
    pub mint_y: Key,
    /// Fee rate in basis points.
    pub fee: u16,
    pub locked: bool,
    pub config_bump: u8,
}

/// The first seed of every pool address: the bytes of `config`.
pub open spec fn config_tag() -> Seq<u8> {
    seq![99u8, 111u8, 110u8, 102u8, 105u8, 103u8]
}

/// The `n` low bytes of `v`, least significant first.
pub open spec fn le_bytes(v: nat, n: nat) -> Seq<u8>
    decreases n,
{
    if n == 0 {
        Seq::empty()
    } else {
        seq![(v % 256) as u8] + le_bytes(v / 256, (n - 1) as nat)
    }
}

/// The seeds that derive a pool's authority: the tag, the seed in eight
/// little-endian bytes, and the bump.
pub open spec fn authority_seeds(seed: u64, bump: u8) -> Seq<Seq<u8>> {
    seq![config_tag(), le_bytes(seed as nat, 8), seq![bump]]
}

/// The bytes of each seed.
pub open spec fn seeds_view(seeds: Seq<Vec<u8>>) -> Seq<Seq<u8>> {
    seeds.map_values(|s: Vec<u8>| s@)
}

/// The bytes of an address, if there is one.
pub open spec fn key_view(k: Option<Key>) -> Option<Seq<u8>> {
    match k {
        Some(k) => Some(k.bytes@),
        None => None,
    }
}

/// The program-derived address of `seeds` under `program_id`, or `None` where
/// the seeds give no valid address.
pub uninterp spec fn program_address_of(seeds: Seq<Seq<u8>>, program_id: Seq<u8>) -> Option<Seq<u8>>;

/// Relies on `Pubkey::create_program_address`: the address is a function of
/// the seeds and the program id alone, and an error stands for no address.
#[verifier::external_body]
fn create_program_address(seeds: &Vec<Vec<u8>>, program_id: &Key) -> (r: Option<Key>)
    ensures
        key_view(r) == program_address_of(seeds_view(seeds@), program_id.bytes@),
{
    let parts: Vec<&[u8]> = seeds.iter().map(|s| s.as_slice()).collect();
    let id = anchor_lang::prelude::Pubkey::new_from_array(program_id.bytes);
    match anchor_lang::prelude::Pubkey::create_program_address(&parts, &id) {
        Ok(k) => Some(Key { bytes: k.to_bytes() }),
        Err(_) => None,
    }
}

/// `v` as eight little-endian bytes.
pub fn u64_le_bytes(v: u64) -> (r: Vec<u8>)
    ensures
        r@ == le_bytes(v as nat, 8),
{
    let mut out: Vec<u8> = Vec::new();
    let mut x: u64 = v;
    let mut i: usize = 0;
    while i < 8
        invariant
            i <= 8,
            out@ + le_bytes(x as nat, (8 - i) as nat) == le_bytes(v as nat, 8),
        decreases 8 - i,
    {
        let ghost before = out@;
        let ghost k = (8 - i) as nat;
        proof {
            assert(le_bytes(x as nat, k) == seq![(x as nat % 256) as u8] + le_bytes(x as nat / 256, (k - 1) as nat));
        }
        out.push((x % 256) as u8);
        proof {
            assert(before + (seq![(x as nat % 256) as u8] + le_bytes(x as nat / 256, (k - 1) as nat))
                =~= out@ + le_bytes(x as nat / 256, (k - 1) as nat));
        }
        x = x / 256;
        i = i + 1;
    }
    assert(out@ + le_bytes(x as nat, 0) =~= out@);
    out
}

impl Config {
    /// The signer seeds of the pool authority.
    pub fn signer_seeds(&self) -> (r: Vec<Vec<u8>>)
        ensures
            seeds_view(r@) == authority_seeds(self.seed, self.config_bump),
    {
        let tag: Vec<u8> = vec![99u8, 111u8, 110u8, 102u8, 105u8, 103u8];
        let seed = u64_le_bytes(self.seed);
        let bump: Vec<u8> = vec![self.config_bump];
        assert(tag@ =~= config_tag());
        assert(bump@ =~= seq![self.config_bump]);
        let r: Vec<Vec<u8>> = vec![tag, seed, bump];
        assert(r@.len() == 3 && r@[0]@ == config_tag() && r@[1]@ == le_bytes(self.seed as nat, 8) && r@[2]@ == seq![self.config_bump]);
        assert(seeds_view(r@) =~= authority_seeds(self.seed, self.config_bump));
        r
    }

    /// The address of the pool authority under `program_id`: the only signer
    /// that can move funds out of the reserves.
    pub(crate) fn derive_authority(&self, program_id: &Key) -> (r: Option<Key>)
        ensures
            key_view(r) == program_address_of(authority_seeds(self.seed, self.config_bump), program_id.bytes@),
    {
        let seeds = self.signer_seeds();
        create_program_address(&seeds, program_id)
    }

    /// Checks a swap of `amount_in` against reserves `reserve_in` and
    /// `reserve_out` and returns what the trader receives. The checks come in
    /// order: lock, zero input, curve arithmetic, slippage bound.
    pub fn quote(&self, reserve_in: u64, reserve_out: u64, amount_in: u64, min_amount_out: u64) -> (r: Result<u64, AmmError>)
        ensures
            r == quote_result(*self, reserve_in, reserve_out, amount_in, min_amount_out),
    {
        if self.locked {
            return Err(AmmError::PoolLocked);
        }
        if amount_in == 0 {
            return Err(AmmError::InvalidAmount);
        }
        let amount_out = match compute_amount_out(amount_in, reserve_in, reserve_out, self.fee) {
            Ok(v) => v,
            Err(e) => return Err(e),
        };
        if amount_out < min_amount_out as u128 {
            return Err(AmmError::SlippageExceeded);
        }
        Ok(amount_out as u64)
    }
}

/// What a quote returns: the first failing check, or the output amount.
pub open spec fn quote_result(config: Config, reserve_in: u64, reserve_out: u64, amount_in: u64, min_amount_out: u64) -> Result<u64, AmmError> {
    if config.locked {
        Err(AmmError::PoolLocked)
    } else if amount_in == 0 {
        Err(AmmError::InvalidAmount)
    } else if curve_fails(amount_in as int, reserve_in as int, config.fee as int) {
        Err(AmmError::Underflow)
    } else if amount_out_of(amount_in as int, reserve_in as int, reserve_out as int, config.fee as int) < min_amount_out {
        Err(AmmError::SlippageExceeded)
    } else {
        Ok(amount_out_of(amount_in as int, reserve_in as int, reserve_out as int, config.fee as int) as u64)
    }
}

} // verus!
