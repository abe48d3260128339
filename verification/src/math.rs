//! Checked arithmetic on the signed 128-bit amounts that the ledgers hold.
//!
//! Every operation either yields the exact mathematical result or reports
//! that it cannot be represented; nothing wraps.

use vstd::prelude::*;

verus! {

/// Seconds in one day.
pub const SECONDS_PER_DAY: u64 = 86400;

/// Whether `x` can be held in an `i128`.
pub open spec fn fits_i128(x: int) -> bool {
    i128::MIN <= x <= i128::MAX
}

/// Percentage of `amount` that has been lost at `current_value`, rounded
/// down: `(amount - current_value) * 100 / amount`. An amount that is not
/// positive has no loss.
pub open spec fn spec_loss_percent(amount: int, current_value: int) -> int {
    if amount > 0 {
        ((amount - current_value) * 100) / amount
    } else {
        0
    }
}

/// Whether every intermediate value of [`spec_loss_percent`] can be held in
/// an `i128`.
pub open spec fn loss_percent_fits(amount: int, current_value: int) -> bool {
    amount > 0 ==> fits_i128(amount - current_value) && fits_i128((amount - current_value) * 100)
}

/// `percent` percent of `value`, rounded down: `value * percent / 100`.
pub open spec fn spec_percent_of(value: int, percent: int) -> int {
    (value * percent) / 100
}

/// The instant `days` days after `now`.
pub open spec fn spec_expiration(now: int, days: int) -> int {
    now + days * 86400
}

/// `a + b`, or `None` where the sum cannot be held.
pub fn safe_add(a: i128, b: i128) -> (sum: Option<i128>)
    ensures
        fits_i128(a + b) ==> sum == Some((a + b) as i128),
        !fits_i128(a + b) ==> sum is None,
{
    a.checked_add(b)
}

/// `a - b`, or `None` where the difference cannot be held.
pub fn safe_sub(a: i128, b: i128) -> (difference: Option<i128>)
    ensures
        fits_i128(a - b) ==> difference == Some((a - b) as i128),
        !fits_i128(a - b) ==> difference is None,
{
    a.checked_sub(b)
}

/// `a * b`, or `None` where the product cannot be held.
pub fn safe_mul(a: i128, b: i128) -> (product: Option<i128>)
    ensures
        fits_i128(a * b) ==> product == Some((a * b) as i128),
        !fits_i128(a * b) ==> product is None,
{
    a.checked_mul(b)
}

/// `a / b` rounded down for a positive `b`; `None` where `b` is not positive.
pub fn safe_div(a: i128, b: i128) -> (quotient: Option<i128>)
    ensures
        b > 0 ==> quotient == Some((a as int / b as int) as i128) && fits_i128(a as int / b as int),
        b <= 0 ==> quotient is None,
{
    if b <= 0 {
        return None;
    }
    proof {
        lemma_floor_div_bounds(a as int, b as int);
    }
    a.checked_div_euclid(b)
}

/// A quotient by a positive divisor lies between the dividend and zero.
pub proof fn lemma_floor_div_bounds(a: int, b: int)
    requires
        b > 0,
    ensures
        a >= 0 ==> 0 <= a / b <= a,
        a < 0 ==> a <= a / b < 0,
{
    let q = a / b;
    let r = a % b;
    assert(a == b * q + r && 0 <= r < b) by {
        vstd::arithmetic::div_mod::lemma_fundamental_div_mod(a, b);
        vstd::arithmetic::div_mod::lemma_mod_bound(a, b);
    }
    assert(a >= 0 ==> 0 <= q <= a) by (nonlinear_arith)
        requires
            a == b * q + r,
            0 <= r < b,
            b > 0,
    ;
    assert(a < 0 ==> a <= q < 0) by (nonlinear_arith)
        requires
            a == b * q + r,
            0 <= r < b,
            b > 0,
    ;
}

/// Loss of `current_value` against `amount` in percent, rounded down; zero
/// for an amount that is not positive. `None` where an intermediate value
/// cannot be held.
pub fn loss_percent(amount: i128, current_value: i128) -> (loss: Option<i128>)
    ensures
        loss_percent_fits(amount as int, current_value as int) ==> loss == Some(
            spec_loss_percent(amount as int, current_value as int) as i128,
        ) && fits_i128(spec_loss_percent(amount as int, current_value as int)),
        !loss_percent_fits(amount as int, current_value as int) ==> loss is None,
{
    if amount <= 0 {
        return Some(0);
    }
    match safe_sub(amount, current_value) {
        None => None,
        Some(lost) => match safe_mul(lost, 100) {
            None => None,
            Some(scaled) => safe_div(scaled, amount),
        },
    }
}

/// `percent` percent of `value`, rounded down. `None` where the product
/// `value * percent` cannot be held.
pub fn percent_of(value: i128, percent: u32) -> (part: Option<i128>)
    ensures
        fits_i128(value * percent) ==> part == Some(
            spec_percent_of(value as int, percent as int) as i128,
        ) && fits_i128(spec_percent_of(value as int, percent as int)),
        !fits_i128(value * percent) ==> part is None,
{
    let rate: i128 = percent as i128;
    match safe_mul(value, rate) {
        None => None,
        Some(scaled) => safe_div(scaled, 100),
    }
}

/// The instant `days` days after `now`, or `None` where it lies beyond the
/// last instant a `u64` can name.
pub fn expiration(now: u64, days: u32) -> (expires_at: Option<u64>)
    ensures
        spec_expiration(now as int, days as int) <= u64::MAX ==> expires_at == Some(
            spec_expiration(now as int, days as int) as u64,
        ),
        spec_expiration(now as int, days as int) > u64::MAX ==> expires_at is None,
{
    let span: u64 = (days as u64) * SECONDS_PER_DAY;
    now.checked_add(span)
}

} // verus!
