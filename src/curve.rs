use vstd::prelude::*;
use vstd::arithmetic::div_mod::{lemma_div_is_ordered, lemma_div_is_ordered_by_denominator, lemma_fundamental_div_mod};
use vstd::arithmetic::mul::lemma_mul_inequality;
use crate::error::AmmError;

verus! {

/// Basis-point denominator of the fee rate.
pub const FEE_DENOMINATOR: u64 = 10000;

/// The part of `amount_in` that the pool keeps as its fee, rounded down.
pub open spec fn fee_of(amount_in: int, fee_bps: int) -> int {
    amount_in * fee_bps / FEE_DENOMINATOR as int
}

/// The input that is priced against the reserves once the fee is taken.
pub open spec fn after_fee(amount_in: int, fee_bps: int) -> int {
    amount_in - fee_of(amount_in, fee_bps)
}

/// The input reserve that the pricing divides by.
pub open spec fn priced_reserve_in(amount_in: int, reserve_in: int, fee_bps: int) -> int {
    reserve_in + after_fee(amount_in, fee_bps)
}

/// The output reserve left by the constant-product relation, rounded down.
/// The target product is `reserve_in * reserve_out`, with the input reserve
/// taken before the fee.
pub open spec fn remaining_out(amount_in: int, reserve_in: int, reserve_out: int, fee_bps: int) -> int {
    reserve_out * reserve_in / priced_reserve_in(amount_in, reserve_in, fee_bps)
}

/// What the trader receives for `amount_in`.
pub open spec fn amount_out_of(amount_in: int, reserve_in: int, reserve_out: int, fee_bps: int) -> int {
    reserve_out - remaining_out(amount_in, reserve_in, reserve_out, fee_bps)
}

/// The curve computation fails with `Underflow` exactly when the fee exceeds
/// the input (a fee rate above 100%) or the priced input reserve is zero.
pub open spec fn curve_fails(amount_in: int, reserve_in: int, fee_bps: int) -> bool {
    fee_of(amount_in, fee_bps) > amount_in || priced_reserve_in(amount_in, reserve_in, fee_bps) == 0
}

/// The remaining output reserve never exceeds the output reserve.
pub proof fn lemma_remaining_bounded(amount_in: int, reserve_in: int, reserve_out: int, fee_bps: int)
    requires
        0 <= reserve_in,
        0 <= reserve_out,
        0 <= amount_in,
        0 <= fee_bps,
        fee_of(amount_in, fee_bps) <= amount_in,
        priced_reserve_in(amount_in, reserve_in, fee_bps) > 0,
    ensures
        0 <= remaining_out(amount_in, reserve_in, reserve_out, fee_bps) <= reserve_out,
        0 <= amount_out_of(amount_in, reserve_in, reserve_out, fee_bps) <= reserve_out,
{
    assert(0 <= amount_in * fee_bps) by (nonlinear_arith)
        requires
            0 <= amount_in,
            0 <= fee_bps,
    ;
    let d = priced_reserve_in(amount_in, reserve_in, fee_bps);
    assert(reserve_in <= d);
    lemma_mul_inequality(reserve_in, d, reserve_out);
    assert(reserve_out * reserve_in == reserve_in * reserve_out) by (nonlinear_arith);
    assert(0 <= reserve_out * reserve_in) by (nonlinear_arith)
        requires
            0 <= reserve_in,
            0 <= reserve_out,
    ;
    lemma_div_is_ordered(reserve_out * reserve_in, d * reserve_out, d);
    assert((d * reserve_out) / d == reserve_out) by (nonlinear_arith)
        requires
            d > 0,
    ;
    assert(0 <= (reserve_out * reserve_in) / d) by (nonlinear_arith)
        requires
            d > 0,
            0 <= reserve_out * reserve_in,
    ;
}

/// With a zero fee the output is the plain constant-product swap:
/// `reserve_out - floor(reserve_out * reserve_in / (reserve_in + amount_in))`.
pub proof fn lemma_zero_fee_reduction(amount_in: int, reserve_in: int, reserve_out: int)
    ensures
        amount_out_of(amount_in, reserve_in, reserve_out, 0)
            == reserve_out - reserve_out * reserve_in / (reserve_in + amount_in),
{
    assert(amount_in * 0 == 0) by (nonlinear_arith);
}

/// For fixed reserves and a positive input, raising the fee rate never raises
/// the output.
pub proof fn lemma_fee_monotonic(amount_in: int, reserve_in: int, reserve_out: int, fee_lo: int, fee_hi: int)
    requires
        amount_in > 0,
        reserve_in >= 0,
        reserve_out >= 0,
        0 <= fee_lo <= fee_hi < FEE_DENOMINATOR,
    ensures
        amount_out_of(amount_in, reserve_in, reserve_out, fee_hi)
            <= amount_out_of(amount_in, reserve_in, reserve_out, fee_lo),
{
    lemma_fee_below_input(amount_in, fee_hi);
    lemma_mul_inequality(fee_lo, fee_hi, amount_in);
    assert(amount_in * fee_lo == fee_lo * amount_in && amount_in * fee_hi == fee_hi * amount_in)
        by (nonlinear_arith);
    lemma_div_is_ordered(amount_in * fee_lo, amount_in * fee_hi, FEE_DENOMINATOR as int);
    let d_lo = priced_reserve_in(amount_in, reserve_in, fee_lo);
    let d_hi = priced_reserve_in(amount_in, reserve_in, fee_hi);
    assert(1 <= d_hi <= d_lo);
    assert(0 <= reserve_out * reserve_in) by (nonlinear_arith)
        requires
            0 <= reserve_in,
            0 <= reserve_out,
    ;
    lemma_div_is_ordered_by_denominator(reserve_out * reserve_in, d_hi, d_lo);
}

/// Below a 100% rate the fee is strictly less than a positive input, so
/// some input is always priced.
pub proof fn lemma_fee_below_input(amount_in: int, fee_bps: int)
    requires
        amount_in > 0,
        0 <= fee_bps < FEE_DENOMINATOR,
    ensures
        0 <= fee_of(amount_in, fee_bps) < amount_in,
{
    let x = amount_in * fee_bps;
    assert(0 <= x <= amount_in * FEE_DENOMINATOR - amount_in) by (nonlinear_arith)
        requires
            amount_in > 0,
            0 <= fee_bps < FEE_DENOMINATOR,
            x == amount_in * fee_bps,
    ;
    lemma_fundamental_div_mod(x, FEE_DENOMINATOR as int);
}

/// The product of the reserves after the swap (the whole input added, the
/// output removed) is at least the product before it exactly when the fee
/// the pool keeps, times the output reserve left, covers what the floor in the
/// pricing dropped. In particular it holds whenever that division is exact.
pub proof fn lemma_product_kept(amount_in: int, reserve_in: int, reserve_out: int, fee_bps: int)
    requires
        amount_in > 0,
        reserve_in >= 0,
        reserve_out >= 0,
        0 <= fee_bps < FEE_DENOMINATOR,
    ensures
        ((reserve_in + amount_in) * (reserve_out - amount_out_of(amount_in, reserve_in, reserve_out, fee_bps))
            >= reserve_in * reserve_out)
        == ((reserve_out * reserve_in) % priced_reserve_in(amount_in, reserve_in, fee_bps)
            <= fee_of(amount_in, fee_bps) * remaining_out(amount_in, reserve_in, reserve_out, fee_bps)),
{
    lemma_fee_below_input(amount_in, fee_bps);
    let d = priced_reserve_in(amount_in, reserve_in, fee_bps);
    let q = remaining_out(amount_in, reserve_in, reserve_out, fee_bps);
    let f = fee_of(amount_in, fee_bps);
    lemma_remaining_bounded(amount_in, reserve_in, reserve_out, fee_bps);
    lemma_fundamental_div_mod(reserve_out * reserve_in, d);
    assert(reserve_out * reserve_in == reserve_in * reserve_out) by (nonlinear_arith);
    assert(reserve_in + amount_in == d + f);
    assert((d + f) * q == d * q + f * q) by (nonlinear_arith);
}

/// In general the floor in the pricing can cost the pool: the product of the
/// reserves after the swap falls short of the product before it by less than
/// the new input reserve.
pub proof fn lemma_product_loss_bounded(amount_in: int, reserve_in: int, reserve_out: int, fee_bps: int)
    requires
        amount_in > 0,
        reserve_in >= 0,
        reserve_out >= 0,
        0 <= fee_bps < FEE_DENOMINATOR,
    ensures
        (reserve_in + amount_in) * (reserve_out - amount_out_of(amount_in, reserve_in, reserve_out, fee_bps))
            > reserve_in * reserve_out - (reserve_in + amount_in),
{
    lemma_fee_below_input(amount_in, fee_bps);
    let d = priced_reserve_in(amount_in, reserve_in, fee_bps);
    let q = remaining_out(amount_in, reserve_in, reserve_out, fee_bps);
    let p = reserve_out * reserve_in;
    assert(1 <= d <= reserve_in + amount_in);
    lemma_remaining_bounded(amount_in, reserve_in, reserve_out, fee_bps);
    lemma_fundamental_div_mod(p, d);
    assert(p % d < d) by (nonlinear_arith)
        requires
            d > 0,
    ;
    assert(reserve_out * reserve_in == reserve_in * reserve_out) by (nonlinear_arith);
    assert(d * q <= (reserve_in + amount_in) * q) by (nonlinear_arith)
        requires
            d <= reserve_in + amount_in,
            q >= 0,
    ;
}

/// Computes what the trader receives for `amount_in`, taking the fee out of
/// the input first. Every step is checked in 128-bit arithmetic.
pub fn compute_amount_out(amount_in: u64, reserve_in: u64, reserve_out: u64, fee_bps: u16) -> (r: Result<u128, AmmError>)
    ensures
        curve_fails(amount_in as int, reserve_in as int, fee_bps as int) ==> r == Err::<u128, AmmError>(AmmError::Underflow),
        !curve_fails(amount_in as int, reserve_in as int, fee_bps as int) ==> r == Ok::<u128, AmmError>(
            amount_out_of(amount_in as int, reserve_in as int, reserve_out as int, fee_bps as int) as u128,
        ),
        !curve_fails(amount_in as int, reserve_in as int, fee_bps as int)
            ==> 0 <= amount_out_of(amount_in as int, reserve_in as int, reserve_out as int, fee_bps as int) <= reserve_out,
{
    let a = amount_in as u128;
    let ri = reserve_in as u128;
    let ro = reserve_out as u128;
    assert(a * (fee_bps as u128) <= u128::MAX) by (nonlinear_arith)
        requires
            a <= u64::MAX,
            fee_bps <= u16::MAX,
    ;
    let fee_amount = match a.checked_mul(fee_bps as u128) {
        Some(v) => match v.checked_div(FEE_DENOMINATOR as u128) {
            Some(q) => q,
            None => return Err(AmmError::Underflow),
        },
        None => return Err(AmmError::Overflow),
    };
    let in_after_fee = match a.checked_sub(fee_amount) {
        Some(v) => v,
        None => return Err(AmmError::Underflow),
    };
    let new_in = match ri.checked_add(in_after_fee) {
        Some(v) => v,
        None => return Err(AmmError::Overflow),
    };
    assert(ro * ri <= u128::MAX) by (nonlinear_arith)
        requires
            ro <= u64::MAX,
            ri <= u64::MAX,
    ;
    let new_out = match ro.checked_mul(ri) {
        Some(v) => match v.checked_div(new_in) {
            Some(q) => q,
            None => return Err(AmmError::Underflow),
        },
        None => return Err(AmmError::Overflow),
    };
    proof {
        assert(new_out == remaining_out(amount_in as int, reserve_in as int, reserve_out as int, fee_bps as int));
        lemma_remaining_bounded(amount_in as int, reserve_in as int, reserve_out as int, fee_bps as int);
    }
    match ro.checked_sub(new_out) {
        Some(v) => Ok(v),
        None => Err(AmmError::Underflow),
    }
}

} // verus!
