//! Exact decimals as a mantissa and a scale (`mantissa / 10^scale`), and the
//! operations of `rust_decimal` that the abbreviation relies on.

use crate::text::{digits, zeros};
use rust_decimal::Decimal;
use rust_decimal::RoundingStrategy as DecimalRounding;
use vstd::prelude::*;

verus! {

/// How a value is rounded to a number of decimal places.
#[derive(Debug, Clone, Copy, PartialEq, Eq, Structural)]
pub enum RoundingStrategy {
    /// Ties go to the even neighbour (`6.5 -> 6`, `7.5 -> 8`).
    MidpointNearestEven,
    /// Ties go away from zero (`6.5 -> 7`).
    MidpointAwayFromZero,
    /// Ties go toward zero (`6.5 -> 6`).
    MidpointTowardZero,
    /// Truncation (`6.8 -> 6`).
    ToZero,
    /// Any discarded fraction rounds away from zero (`6.1 -> 7`).
    AwayFromZero,
    /// Floor (`6.8 -> 6`, `-6.8 -> -7`).
    ToNegativeInfinity,
    /// Ceiling (`6.1 -> 7`, `-6.8 -> -6`).
    ToPositiveInfinity,
}

/// The largest mantissa a decimal holds: `2^96 - 1`.
pub open spec fn max_mantissa() -> nat {
    79228162514264337593543950335
}

/// The largest scale a decimal holds.
pub open spec fn max_scale() -> nat {
    28
}

pub open spec fn pow10(k: nat) -> nat
    decreases k,
{
    if k == 0 {
        1
    } else {
        10 * pow10((k - 1) as nat)
    }
}

/// Rounds the non-negative `m / d` to an integer: `q = m / d` is kept or
/// raised by one depending on the remainder and the strategy.
pub open spec fn round_quotient(m: nat, d: nat, strategy: RoundingStrategy) -> nat
    recommends
        d > 0,
{
    let q = m / d;
    let r = m % d;
    match strategy {
        RoundingStrategy::MidpointNearestEven => if 2 * r > d || (2 * r == d && q % 2 == 1) {
            q + 1
        } else {
            q
        },
        RoundingStrategy::MidpointAwayFromZero => if 2 * r >= d {
            q + 1
        } else {
            q
        },
        RoundingStrategy::MidpointTowardZero => if 2 * r > d {
            q + 1
        } else {
            q
        },
        RoundingStrategy::AwayFromZero | RoundingStrategy::ToPositiveInfinity => if r > 0 {
            q + 1
        } else {
            q
        },
        RoundingStrategy::ToZero | RoundingStrategy::ToNegativeInfinity => q,
    }
}

/// The non-negative decimal `(m, s)` rounded to `dp` decimal places, as a
/// mantissa and a scale. A decimal with at most `dp` places is kept as it is.
pub open spec fn rounded(m: nat, s: nat, dp: nat, strategy: RoundingStrategy) -> (nat, nat) {
    if s <= dp {
        (m, s)
    } else {
        (round_quotient(m, pow10((s - dp) as nat), strategy), dp)
    }
}

/// The decimal `(m, s)` with its trailing fractional zeros removed; zero
/// becomes `(0, 0)`.
pub open spec fn stripped(m: nat, s: nat) -> (nat, nat)
    decreases s,
{
    if m == 0 {
        (0, 0)
    } else if s > 0 && m % 10 == 0 {
        stripped(m / 10, (s - 1) as nat)
    } else {
        (m, s)
    }
}

/// Plain notation of the decimal `(m, s)`: the digits of `m`, padded with
/// leading zeros to at least `s` digits, with a point before the last `s`
/// of them, and a `0` before a point that would lead.
pub open spec fn decimal_text(m: nat, s: nat) -> Seq<char> {
    let ds = digits(m);
    let padded = if ds.len() < s {
        zeros((s - ds.len()) as nat) + ds
    } else {
        ds
    };
    let whole = padded.len() - s;
    if s == 0 {
        padded
    } else {
        (if whole == 0 {
            seq!['0']
        } else {
            padded.subrange(0, whole)
        }) + seq!['.'] + padded.subrange(whole, padded.len() as int)
    }
}

/// Relies on `Decimal::round_dp_with_strategy` to round `mantissa / 10^scale`
/// to `dp` places; `Decimal::from_i128_with_scale`, `mantissa` and `scale`
/// carry the value in and out. Within these bounds the constructor does not
/// panic.
#[verifier::external_body]
fn round_dp(mantissa: u128, scale: u32, dp: u32, strategy: RoundingStrategy) -> (r: (u128, u32))
    requires
        mantissa <= max_mantissa(),
        scale <= max_scale(),
    ensures
        (r.0 as nat, r.1 as nat) == rounded(mantissa as nat, scale as nat, dp as nat, strategy),
{
    let strategy = match strategy {
        RoundingStrategy::MidpointNearestEven => DecimalRounding::MidpointNearestEven,
        RoundingStrategy::MidpointAwayFromZero => DecimalRounding::MidpointAwayFromZero,
        RoundingStrategy::MidpointTowardZero => DecimalRounding::MidpointTowardZero,
        RoundingStrategy::ToZero => DecimalRounding::ToZero,
        RoundingStrategy::AwayFromZero => DecimalRounding::AwayFromZero,
        RoundingStrategy::ToNegativeInfinity => DecimalRounding::ToNegativeInfinity,
        RoundingStrategy::ToPositiveInfinity => DecimalRounding::ToPositiveInfinity,
    };
    let d = Decimal::from_i128_with_scale(mantissa as i128, scale);
    let d = d.round_dp_with_strategy(dp, strategy);
    (d.mantissa() as u128, d.scale())
}

/// Relies on `Decimal::normalize` to strip the trailing zeros of
/// `mantissa / 10^scale`; `Decimal::from_i128_with_scale`, `mantissa` and
/// `scale` carry the value in and out.
#[verifier::external_body]
fn normalize(mantissa: u128, scale: u32) -> (r: (u128, u32))
    requires
        mantissa <= max_mantissa(),
        scale <= max_scale(),
    ensures
        (r.0 as nat, r.1 as nat) == stripped(mantissa as nat, scale as nat),
{
    let d = Decimal::from_i128_with_scale(mantissa as i128, scale).normalize();
    (d.mantissa() as u128, d.scale())
}

/// Relies on `Decimal`'s `Display` (no precision given) to write
/// `mantissa / 10^scale` in plain notation; `Decimal::from_i128_with_scale`
/// builds the value.
#[verifier::external_body]
fn decimal_string(mantissa: u128, scale: u32) -> (r: String)
    requires
        mantissa <= max_mantissa(),
        scale <= max_scale(),
    ensures
        r@ == decimal_text(mantissa as nat, scale as nat),
{
    Decimal::from_i128_with_scale(mantissa as i128, scale).to_string()
}

/// The text of the non-negative `(m, s)` once rounded to `dp` places and
/// stripped of trailing fractional zeros.
pub open spec fn rounded_text(m: nat, s: nat, dp: nat, strategy: RoundingStrategy) -> Seq<char> {
    let (rm, rs) = rounded(m, s, dp, strategy);
    let (nm, ns) = stripped(rm, rs);
    decimal_text(nm, ns)
}

pub proof fn lemma_pow10_positive(k: nat)
    ensures
        pow10(k) >= 1,
    decreases k,
{
    if k > 0 {
        lemma_pow10_positive((k - 1) as nat);
    }
}

/// Rounding to fewer places gives at most the quotient plus one.
proof fn lemma_rounded_bound(m: nat, s: nat, dp: nat, strategy: RoundingStrategy)
    ensures
        rounded(m, s, dp, strategy).0 <= m + 1,
        rounded(m, s, dp, strategy).1 <= s,
{
    if s > dp {
        let d = pow10((s - dp) as nat);
        lemma_pow10_positive((s - dp) as nat);
        assert(m / d <= m) by (nonlinear_arith)
            requires
                d >= 1,
        ;
    }
}

/// Stripping zeros never grows the mantissa or the scale.
proof fn lemma_stripped_bound(m: nat, s: nat)
    ensures
        stripped(m, s).0 <= m,
        stripped(m, s).1 <= s,
    decreases s,
{
    if m != 0 && s > 0 && m % 10 == 0 {
        lemma_stripped_bound(m / 10, (s - 1) as nat);
    }
}

/// Renders `mantissa / 10^scale` rounded to `dp` decimal places with
/// `strategy`, without trailing fractional zeros.
pub fn rounded_string(mantissa: u64, scale: u32, dp: u32, strategy: RoundingStrategy) -> (r: String)
    requires
        scale <= max_scale(),
    ensures
        r@ == rounded_text(mantissa as nat, scale as nat, dp as nat, strategy),
{
    let (rm, rs) = round_dp(mantissa as u128, scale, dp, strategy);
    proof {
        lemma_rounded_bound(mantissa as nat, scale as nat, dp as nat, strategy);
    }
    let (nm, ns) = normalize(rm, rs);
    proof {
        lemma_stripped_bound(rm as nat, rs as nat);
    }
    decimal_string(nm, ns)
}

} // verus!
