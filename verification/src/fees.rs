//! Protocol fees expressed in basis points.

use vstd::prelude::*;

verus! {

/// Basis points scale: 10000 bps = 100%.
pub const BPS_SCALE: u32 = 10000;

/// Largest fee rate that is accepted (100%).
pub const BPS_MAX: u32 = 10000;

/// Quotient of `x` by a positive `d`, rounded toward zero.
pub open spec fn div_toward_zero(x: int, d: int) -> int
    recommends
        d > 0,
{
    if x >= 0 {
        x / d
    } else {
        -((-x) / d)
    }
}

/// The fee on `amount` at `bps` basis points: `amount * bps / 10000`,
/// rounded toward zero.
pub open spec fn spec_fee_from_bps(amount: int, bps: int) -> int {
    div_toward_zero(amount * bps, 10000)
}

/// Whether the product `amount * bps` can be held in an `i128`.
pub open spec fn fee_product_fits(amount: int, bps: int) -> bool {
    i128::MIN <= amount * bps <= i128::MAX
}

/// Fee on `amount` at a rate of `bps` basis points (100 bps = 1%).
pub fn fee_from_bps(amount: i128, bps: u32) -> (fee: i128)
    requires
        bps <= BPS_MAX,
        fee_product_fits(amount as int, bps as int),
    ensures
        fee == spec_fee_from_bps(amount as int, bps as int),
{
    let product: i128 = amount * (bps as i128);
    product / (BPS_SCALE as i128)
}

/// What is left of `amount` once the fee at `bps` basis points is taken.
pub open spec fn spec_net_after_fee_bps(amount: int, bps: int) -> int {
    amount - spec_fee_from_bps(amount, bps)
}

/// Net amount after the fee at `bps` basis points is deducted.
pub fn net_after_fee_bps(amount: i128, bps: u32) -> (net: i128)
    requires
        bps <= BPS_MAX,
        fee_product_fits(amount as int, bps as int),
    ensures
        net == spec_net_after_fee_bps(amount as int, bps as int),
{
    let fee = fee_from_bps(amount, bps);
    proof {
        lemma_fee_is_part_of_amount(amount as int, bps as int);
    }
    amount - fee
}

/// A fee at no more than 100% lies between zero and the amount, and so
/// does what is left after it.
pub proof fn lemma_fee_is_part_of_amount(amount: int, bps: int)
    requires
        0 <= bps <= 10000,
    ensures
        amount >= 0 ==> 0 <= spec_fee_from_bps(amount, bps) <= amount,
        amount <= 0 ==> amount <= spec_fee_from_bps(amount, bps) <= 0,
{
    if amount >= 0 {
        assert(0 <= amount * bps <= amount * 10000) by (nonlinear_arith)
            requires
                amount >= 0,
                0 <= bps <= 10000,
        ;
        lemma_div_monotone(amount * bps, amount * 10000);
    } else {
        assert(0 <= (-amount) * bps <= (-amount) * 10000 && -(amount * bps) == (-amount) * bps) by (nonlinear_arith)
            requires
                amount < 0,
                0 <= bps <= 10000,
        ;
        if amount * bps == 0 {
        } else {
            lemma_div_monotone((-amount) * bps, (-amount) * 10000);
        }
    }
}

proof fn lemma_div_monotone(x: int, y: int)
    requires
        0 <= x <= y,
    ensures
        0 <= x / 10000 <= y / 10000,
{
    vstd::arithmetic::div_mod::lemma_div_is_ordered(x, y, 10000);
    vstd::arithmetic::div_mod::lemma_div_pos_is_pos(x, 10000);
}

} // verus!
