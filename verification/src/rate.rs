//! The exchange-rate arithmetic: a batch's rate is the fixed-point rational
//! `liquid_total / staking_total`, and a redemption mints
//! `staked * rate`, rounded toward zero at both stages.

use vstd::prelude::*;

use crate::types::{Balance, Error};
use sp_arithmetic::FixedPointNumber;
use sp_arithmetic::FixedU128;

verus! {

/// Number of fractional units in one whole unit of the fixed-point rational
/// type: its inner integer counts units of `1 / FIXED_POINT_ACCURACY`.
pub const FIXED_POINT_ACCURACY: u128 = 1_000_000_000_000_000_000;

/// The amount minted for a commitment of `staked` under a snapshot with totals
/// `staking_total` and `liquid_total`:
/// `floor(floor(liquid_total * accuracy / staking_total) * staked / accuracy)`,
/// or nothing when the rate or the product leaves the representable range
/// (a zero `staking_total` leaves the rate undefined).
pub open spec fn liquid_to_mint_spec(
    staked: Balance,
    staking_total: Balance,
    liquid_total: Balance,
) -> Option<Balance> {
    if staking_total == 0 {
        None
    } else {
        let inner = (liquid_total * FIXED_POINT_ACCURACY) / (staking_total as int);
        if inner > u128::MAX {
            None
        } else {
            let minted = (inner * staked) / (FIXED_POINT_ACCURACY as int);
            if minted > u128::MAX {
                None
            } else {
                Some(minted as Balance)
            }
        }
    }
}

/// Relies on `sp_arithmetic::FixedU128::checked_from_rational` (via the
/// `FixedPointNumber` trait): the rational `n / d` with its inner value
/// truncated to `floor(n * 10^18 / d)`, or `None` when `d` is zero or that
/// inner value exceeds `u128::MAX`.
#[verifier::external_body]
fn ratio_from_rational(n: Balance, d: Balance) -> (r: Option<Balance>)
    ensures
        d == 0 ==> r is None,
        d != 0 ==> ({
            let inner = (n * FIXED_POINT_ACCURACY) / (d as int);
            if inner > u128::MAX {
                r is None
            } else {
                r == Some(inner as Balance)
            }
        }),
{
    FixedU128::checked_from_rational(n, d).map(|x| x.into_inner())
}

/// Relies on `sp_arithmetic::FixedU128::checked_mul_int` (via the
/// `FixedPointNumber` trait): the product of the rational with inner value
/// `inner` and the integer `m`, truncated to `floor(inner * m / 10^18)`, or
/// `None` when that exceeds `u128::MAX`.
#[verifier::external_body]
fn ratio_mul_int(inner: Balance, m: Balance) -> (r: Option<Balance>)
    ensures
        ({
            let minted = (inner * m) / (FIXED_POINT_ACCURACY as int);
            if minted > u128::MAX {
                r is None
            } else {
                r == Some(minted as Balance)
            }
        }),
{
    FixedU128::from_inner(inner).checked_mul_int(m)
}

/// Computes the amount of liquid currency a commitment of `staked` mints under
/// the given snapshot totals, failing when the rate or the product cannot be
/// represented.
pub fn compute_liquid_to_mint(staked: Balance, staking_total: Balance, liquid_total: Balance) -> (r:
    Result<Balance, Error>)
    ensures
        (match liquid_to_mint_spec(staked, staking_total, liquid_total) {
            Some(m) => r == Ok::<Balance, Error>(m),
            None => r == Err::<Balance, Error>(Error::ArithmeticOverflow),
        }),
{
    let inner = match ratio_from_rational(liquid_total, staking_total) {
        Some(x) => x,
        None => {
            return Err(Error::ArithmeticOverflow);
        },
    };
    match ratio_mul_int(inner, staked) {
        Some(m) => Ok(m),
        None => Err(Error::ArithmeticOverflow),
    }
}

/// A zero commitment mints exactly zero whenever the batch's rate is
/// representable at all.
pub proof fn lemma_zero_staked_mints_zero(staking_total: Balance, liquid_total: Balance)
    ensures
        liquid_to_mint_spec(0, staking_total, liquid_total) matches Some(m) ==> m == 0,
{
}

/// Two fractions with equal cross products are the same rational, so their
/// floors agree.
proof fn lemma_div_equal_rationals(a: int, b: int, c: int, d: int)
    requires
        b > 0,
        d > 0,
        a >= 0,
        c >= 0,
        a * d == c * b,
    ensures
        a / b == c / d,
{
    let q = a / b;
    let r1 = a % b;
    vstd::arithmetic::div_mod::lemma_fundamental_div_mod(a, b);
    let r2 = c - q * d;
    assert(r2 * b == r1 * d) by (nonlinear_arith)
        requires
            a * d == c * b,
            a == b * q + r1,
            r2 == c - q * d,
    ;
    assert(r1 >= 0 && r1 < b);
    assert(r2 >= 0) by (nonlinear_arith)
        requires
            r2 * b == r1 * d,
            r1 >= 0,
            d > 0,
            b > 0,
    ;
    assert(r2 < d) by (nonlinear_arith)
        requires
            r2 * b == r1 * d,
            r1 < b,
            r2 >= 0,
            d > 0,
            b > 0,
    ;
    vstd::arithmetic::div_mod::lemma_fundamental_div_mod_converse(c, d, q, r2);
}

/// When the snapshot rate `liquid_total / staking_total` is exactly
/// representable at the fixed-point accuracy, a commitment of `staked` mints
/// exactly `floor(staked * liquid_total / staking_total)`.
pub proof fn lemma_mint_exact(staked: Balance, staking_total: Balance, liquid_total: Balance)
    requires
        staking_total > 0,
        (liquid_total * FIXED_POINT_ACCURACY) % (staking_total as int) == 0,
        (liquid_total * FIXED_POINT_ACCURACY) / (staking_total as int) <= u128::MAX,
        (staked * liquid_total) / (staking_total as int) <= u128::MAX,
    ensures
        liquid_to_mint_spec(staked, staking_total, liquid_total) == Some(
            ((staked * liquid_total) / (staking_total as int)) as Balance,
        ),
{
    let e = FIXED_POINT_ACCURACY as int;
    let s = staking_total as int;
    let l = liquid_total as int;
    let a = staked as int;
    let q = (l * e) / s;
    vstd::arithmetic::div_mod::lemma_fundamental_div_mod(l * e, s);
    assert(q * s == l * e);
    assert(q >= 0) by (nonlinear_arith)
        requires
            q * s == l * e,
            l >= 0,
            e > 0,
            s > 0,
    ;
    assert((q * a) * s == (a * l) * e) by (nonlinear_arith)
        requires
            q * s == l * e,
    ;
    assert(q * a >= 0) by (nonlinear_arith)
        requires
            q >= 0,
            a >= 0,
    ;
    assert(a * l >= 0) by (nonlinear_arith)
        requires
            a >= 0,
            l >= 0,
    ;
    lemma_div_equal_rationals(q * a, e, a * l, s);
}

} // verus!
