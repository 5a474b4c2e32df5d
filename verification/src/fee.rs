//! Basis-point fee arithmetic.

use vstd::prelude::*;

verus! {

/// One hundred percent, in basis points.
pub const BPS_DENOMINATOR: u64 = 10_000;

/// The largest rate a single fee may be configured with, in basis points.
pub const MAX_FEE_BPS: u16 = 1_000;

/// The fee on `amount` at a rate of `bps` basis points, rounded down.
pub open spec fn fee_of(amount: int, bps: int) -> int {
    (amount * bps) / 10_000
}

/// A rate of at most one hundred percent never yields more than the amount.
pub proof fn lemma_fee_at_most_amount(amount: int, bps: int)
    requires
        0 <= amount,
        0 <= bps <= 10_000,
    ensures
        0 <= fee_of(amount, bps) <= amount,
{
    assert(0 <= amount * bps <= amount * 10_000) by (nonlinear_arith)
        requires
            0 <= amount,
            0 <= bps <= 10_000,
    ;
}

/// A rate of zero, and an amount of zero, yield no fee.
pub proof fn lemma_fee_of_nothing(amount: int, bps: int)
    ensures
        fee_of(amount, 0) == 0,
        fee_of(0, bps) == 0,
{
    assert(amount * 0 == 0) by (nonlinear_arith);
    assert(0 * bps == 0) by (nonlinear_arith);
}

/// Computes `floor(amount * bps / 10000)` through a 128-bit intermediate, so
/// that no amount overflows it. The rate is at most a full share, which keeps
/// the fee within the amount.
pub fn fee(amount: u64, bps: u16) -> (out: u64)
    requires
        bps <= 10_000,
    ensures
        out == fee_of(amount as int, bps as int),
        out <= amount,
        bps == 0 || amount == 0 ==> out == 0,
{
    proof {
        lemma_fee_at_most_amount(amount as int, bps as int);
        lemma_fee_of_nothing(amount as int, bps as int);
    }
    let wide_amount: u128 = amount as u128;
    let wide_bps: u128 = bps as u128;
    assert(wide_amount * wide_bps <= u128::MAX) by (nonlinear_arith)
        requires
            wide_amount <= u64::MAX,
            wide_bps <= u16::MAX,
    ;
    let product: u128 = wide_amount * wide_bps;
    let quotient: u128 = product / 10_000u128;
    quotient as u64
}

} // verus!
