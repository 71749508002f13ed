//! Exact checks on fixed-point shares, prices, contributions and limits.
//!
//! Ratios and prices arrive as 128-bit integers scaled by 10^18 (their
//! "atomics"); amounts are whole atomic units. Every comparison here is made
//! on exact rationals: no tolerance and no rounding, except where a rule
//! names one.
//!
//! The values are kept as plain integers and the work is done in integer
//! arithmetic (with 256-bit products where a comparison needs them). A
//! decimal type with 28 significant digits, such as `rust_decimal`'s, rounds
//! products and quotients, so a share sum or a leg amount that is exact here
//! could compare equal there by rounding; the checks must not depend on
//! that. Amounts and prices in report text are shown truncated to a fixed
//! number of places; a percentage is rounded to the nearest whole number,
//! halves up.
use vstd::prelude::*;

use crate::text::{digits_of, digit_char, u128_text};

verus! {

/// The fixed-point scale of shares and prices.
pub const FIXED_ONE: u128 = 1_000_000_000_000_000_000;

/// 2^64.
pub const LIMB: u128 = 0x1_0000_0000_0000_0000;

/// Two fixed-point shares partition the whole: they add up to exactly 1.
pub open spec fn shares_sum_to_one_spec(a: int, b: int) -> bool {
    a + b == FIXED_ONE as int
}

/// Whether two fixed-point shares add up to exactly 1.
pub fn shares_sum_to_one(a: u128, b: u128) -> (r: bool)
    ensures
        r == shares_sum_to_one_spec(a as int, b as int),
{
    a <= FIXED_ONE && b == FIXED_ONE - a
}

/// Whether a fixed-point share lies in [0, 1].
pub fn share_within_unit(a: u128) -> (r: bool)
    ensures
        r == (a as int <= FIXED_ONE as int),
{
    a <= FIXED_ONE
}

/// `n / d` rounded away from zero, for `d > 0`.
pub open spec fn div_away_from_zero(n: int, d: int) -> int {
    if n >= 0 {
        (n + d - 1) / d
    } else {
        -((-n + d - 1) / d)
    }
}

/// The single-side limit that a contribution and a limit percentage call
/// for: `contribution - contribution * pct / 100`, rounded away from zero.
pub open spec fn expected_single_side_limit(contribution: int, limit_pct: int) -> int {
    div_away_from_zero(contribution * (100 - limit_pct), 100)
}

/// The single-side limit for `contribution` and `limit_pct`, or `None`
/// where it is below zero (a percentage above 100 on a positive amount).
pub fn single_side_lp_limit(contribution: u128, limit_pct: u32) -> (r: Option<u128>)
    ensures
        match r {
            Some(v) => v as int == expected_single_side_limit(contribution as int, limit_pct as int),
            None => expected_single_side_limit(contribution as int, limit_pct as int) < 0,
        },
{
    let c = contribution;
    let p = limit_pct as u128;
    if p <= 100 {
        let q = c / 100;
        let rem = c % 100;
        assert(q * p <= q * 100) by (nonlinear_arith) requires p <= 100;
        assert(c as int == 100 * q + rem);
        assert(rem * p <= rem * 100) by (nonlinear_arith) requires p <= 100;
        assert((rem * p) / 100 <= rem) by (nonlinear_arith) requires p <= 100, rem < 100;
        let cut = q * p + (rem * p) / 100;
        proof {
            let ci = c as int;
            let pi = p as int;
            assert(ci * (100 - pi) == 100 * (q * (100 - pi)) + rem * (100 - pi)) by (nonlinear_arith)
                requires ci == 100 * q + rem;
            assert(rem * (100 - pi) == 100 * rem - rem * pi) by (nonlinear_arith);
            let t = ci * (100 - pi);
            assert(t >= 0) by (nonlinear_arith) requires ci >= 0, pi <= 100, t == ci * (100 - pi);
            // t + 99 = 100 * (q*(100-p) + rem) - rem*p + 99
            let k = q * (100 - pi) + rem;
            let m = rem * pi;
            assert(t + 99 == 100 * k + (99 - m)) by (nonlinear_arith)
                requires t == 100 * (q * (100 - pi)) + rem * (100 - pi), rem * (100 - pi) == 100 * rem - m, k == q * (100 - pi) + rem;
            assert(m / 100 * 100 <= m && m < m / 100 * 100 + 100) by (nonlinear_arith) requires m >= 0;
            let w = m / 100;
            assert(99 - m == -100 * w + (99 - (m - 100 * w)));
            assert((t + 99) / 100 == k - w) by (nonlinear_arith)
                requires t + 99 == 100 * (k - w) + (99 - (m - 100 * w)), 0 <= m - 100 * w < 100;
            assert(q * p + w == q * pi + w);
            assert(c - cut == 100 * q + rem - q * pi - w);
            assert(k - w == q * 100 - q * pi + rem - w) by (nonlinear_arith) requires k == q * (100 - pi) + rem;
        }
        Some(c - cut)
    } else {
        proof {
            let ci = c as int;
            let pi = p as int;
            if ci > 0 {
                assert(ci * (100 - pi) < 0) by (nonlinear_arith) requires ci > 0, pi > 100;
                assert(-(ci * (100 - pi)) + 99 >= 100) by (nonlinear_arith) requires ci > 0, pi > 100;
            } else {
                assert(ci * (100 - pi) == 0);
            }
        }
        if c == 0 {
            Some(0)
        } else {
            None
        }
    }
}

/// Whether a configured single-side limit is the one that the contribution
/// and the limit percentage call for.
pub fn single_side_limit_matches(contribution: u128, limit_pct: u32, configured: u128) -> (r: bool)
    ensures
        r == (configured as int == expected_single_side_limit(contribution as int, limit_pct as int)),
{
    match single_side_lp_limit(contribution, limit_pct) {
        Some(v) => v == configured,
        None => false,
    }
}

/// A 256-bit value as (high, low) halves.
pub open spec fn wide_value(hi: u128, lo: u128) -> int {
    hi as int * 0x1_0000_0000_0000_0000_0000_0000_0000_0000int + lo as int
}

/// The full product of two 128-bit numbers.
pub fn mul_wide(x: u128, y: u128) -> (r: (u128, u128))
    ensures
        wide_value(r.0, r.1) == x as int * y as int,
{
    let x0 = x % LIMB;
    let x1 = x / LIMB;
    let y0 = y % LIMB;
    let y1 = y / LIMB;
    assert(x0 * y0 < LIMB * LIMB) by (nonlinear_arith) requires x0 < LIMB, y0 < LIMB;
    assert(x0 * y1 < LIMB * LIMB) by (nonlinear_arith) requires x0 < LIMB, y1 < LIMB;
    assert(x1 * y0 < LIMB * LIMB) by (nonlinear_arith) requires x1 < LIMB, y0 < LIMB;
    assert(x1 * y1 < LIMB * LIMB) by (nonlinear_arith) requires x1 < LIMB, y1 < LIMB;
    let p00 = x0 * y0;
    let p01 = x0 * y1;
    let p10 = x1 * y0;
    let p11 = x1 * y1;
    let mid = p00 / LIMB + p01 % LIMB + p10 % LIMB;
    let lo = p00 % LIMB + (mid % LIMB) * LIMB;
    assert((mid % LIMB) * LIMB <= (LIMB - 1) * LIMB) by (nonlinear_arith) requires mid % LIMB < LIMB;
    assert(p11 + p01 / LIMB + p10 / LIMB + mid / LIMB < LIMB * LIMB) by (nonlinear_arith)
        requires
            x1 < LIMB, y1 < LIMB, p11 == x1 * y1, p01 < LIMB * LIMB, p10 < LIMB * LIMB,
            x0 < LIMB, y0 < LIMB, p01 == x0 * y1, p10 == x1 * y0, mid < 3 * LIMB;
    let hi = p11 + p01 / LIMB + p10 / LIMB + mid / LIMB;
    proof {
        let b = LIMB as int;
        assert(x as int == x1 * b + x0);
        assert(y as int == y1 * b + y0);
        assert(x as int * y as int == p11 * (b * b) + (p01 + p10) * b + p00) by (nonlinear_arith)
            requires x as int == x1 * b + x0, y as int == y1 * b + y0, p11 == x1 * y1, p01 == x0 * y1, p10 == x1 * y0, p00 == x0 * y0;
        assert(p00 == (p00 / LIMB) * b + p00 % LIMB);
        assert(p01 == (p01 / LIMB) * b + p01 % LIMB);
        assert(p10 == (p10 / LIMB) * b + p10 % LIMB);
        assert(mid == (mid / LIMB) * b + mid % LIMB);
        assert(b * b == 0x1_0000_0000_0000_0000_0000_0000_0000_0000int);
        assert(x as int * y as int == hi as int * (b * b) + lo as int) by (nonlinear_arith)
            requires
                x as int * y as int == p11 * (b * b) + (p01 + p10) * b + p00,
                p00 == (p00 / LIMB) * b + p00 % LIMB,
                p01 == (p01 / LIMB) * b + p01 % LIMB,
                p10 == (p10 / LIMB) * b + p10 % LIMB,
                mid == (mid / LIMB) * b + mid % LIMB,
                mid == p00 / LIMB + p01 % LIMB + p10 % LIMB,
                lo == p00 % LIMB + (mid % LIMB) * b,
                hi == p11 + p01 / LIMB + p10 / LIMB + mid / LIMB;
    }
    (hi, lo)
}

/// Compares two 256-bit values.
fn wide_lt(a: (u128, u128), b: (u128, u128)) -> (r: bool)
    ensures
        r == (wide_value(a.0, a.1) < wide_value(b.0, b.1)),
{
    assert(wide_value(a.0, a.1) < wide_value(b.0, b.1) <==> (a.0 < b.0 || (a.0 == b.0 && a.1 < b.1))) by (nonlinear_arith)
        requires true;
    a.0 < b.0 || (a.0 == b.0 && a.1 < b.1)
}

/// Lower bound of the price band, in percent of the current price.
pub const PRICE_BAND_LOW_PCT: u128 = 95;
/// Upper bound of the price band, in percent of the current price.
pub const PRICE_BAND_HIGH_PCT: u128 = 105;

/// An expected spot price (scaled by 10^18) lies in
/// `[current * 0.95, current * 1.05)`, where the current price is
/// `pool_a / pool_b`, and 0 where `pool_b` is 0.
pub open spec fn price_within_band_spec(pool_a: int, pool_b: int, expected: int) -> bool {
    if pool_b == 0 {
        false
    } else {
        &&& expected * pool_b * 100 >= pool_a * PRICE_BAND_LOW_PCT * FIXED_ONE
        &&& expected * pool_b * 100 < pool_a * PRICE_BAND_HIGH_PCT * FIXED_ONE
    }
}

/// Whether the expected spot price lies in the 5% band around the current
/// pool price. The expected price is at most `u128::MAX / 100` atomics.
pub fn price_within_band(pool_a: u128, pool_b: u128, expected: u128) -> (r: bool)
    requires
        expected <= u128::MAX / 100,
    ensures
        r == price_within_band_spec(pool_a as int, pool_b as int, expected as int),
{
    if pool_b == 0 {
        return false;
    }
    let lhs = mul_wide(expected * 100, pool_b);
    let low = mul_wide(pool_a, PRICE_BAND_LOW_PCT * FIXED_ONE);
    let high = mul_wide(pool_a, PRICE_BAND_HIGH_PCT * FIXED_ONE);
    proof {
        let e = expected as int;
        let b = pool_b as int;
        let a = pool_a as int;
        assert(e * b * 100 == (e * 100) * b) by (nonlinear_arith);
        assert(a * PRICE_BAND_LOW_PCT * FIXED_ONE == a * (PRICE_BAND_LOW_PCT * FIXED_ONE)) by (nonlinear_arith);
        assert(a * PRICE_BAND_HIGH_PCT * FIXED_ONE == a * (PRICE_BAND_HIGH_PCT * FIXED_ONE)) by (nonlinear_arith);
    }
    !wide_lt(lhs, low) && wide_lt(lhs, high)
}

/// A leg of a contribution matches its share: `leg == total * share`,
/// with the share scaled by 10^18.
pub open spec fn leg_matches_share_spec(leg: int, total: int, share: int) -> bool {
    leg * FIXED_ONE == total * share
}

/// Whether a leg amount is exactly `total * share`.
pub fn leg_matches_share(leg: u128, total: u128, share: u128) -> (r: bool)
    ensures
        r == leg_matches_share_spec(leg as int, total as int, share as int),
{
    let a = mul_wide(leg, FIXED_ONE);
    let b = mul_wide(total, share);
    assert(wide_value(a.0, a.1) == wide_value(b.0, b.1) <==> (a.0 == b.0 && a.1 == b.1)) by (nonlinear_arith)
        requires true;
    a.0 == b.0 && a.1 == b.1
}

/// The first `k` decimal digits of the fraction `r / den`, truncated.
pub open spec fn fraction_digits(r: nat, den: nat, k: nat) -> Seq<char>
    decreases k,
{
    if k == 0 || den == 0 {
        Seq::empty()
    } else {
        seq![digit_char((r * 10) / den)] + fraction_digits((r * 10) % den, den, (k - 1) as nat)
    }
}

/// `num / den` in decimal, truncated to `places` fractional digits, with no
/// decimal point where `places` is 0.
pub open spec fn ratio_text_spec(num: nat, den: nat, places: nat) -> Seq<char> {
    if places == 0 {
        digits_of(num / den)
    } else {
        digits_of(num / den) + "."@ + fraction_digits(num % den, den, places)
    }
}

/// Renders `num / den` truncated to `places` fractional digits, for a
/// divisor of at most `u128::MAX / 10`.
pub fn ratio_text(num: u128, den: u128, places: u32) -> (r: String)
    requires
        0 < den <= u128::MAX / 10,
    ensures
        r@ == ratio_text_spec(num as nat, den as nat, places as nat),
{
    let mut s = u128_text(num / den);
    if places == 0 {
        return s;
    }
    proof { reveal_strlit("."); }
    s.append(".");
    let ghost head = s@;
    let ghost mut done: Seq<char> = Seq::empty();
    let mut rem = num % den;
    let mut k: u32 = 0;
    assert(s@ =~= head + done);
    assert(done + fraction_digits(rem as nat, den as nat, places as nat) =~= fraction_digits(rem as nat, den as nat, places as nat));
    while k < places
        invariant
            0 < den <= u128::MAX / 10,
            rem < den,
            k <= places,
            s@ == head + done,
            done + fraction_digits(rem as nat, den as nat, (places - k) as nat)
                == fraction_digits((num % den) as nat, den as nat, places as nat),
        decreases places - k,
    {
        let ghost old_rem = rem;
        let t = rem * 10;
        let d = t / den;
        assert(d < 10) by (nonlinear_arith) requires t == rem * 10, rem < den, d == t / den, den > 0;
        s.append(crate::text::digit_str(d));
        rem = t % den;
        proof {
            let nd = done + seq![digit_char(d as nat)];
            assert(s@ =~= head + nd);
            assert(fraction_digits(old_rem as nat, den as nat, (places - k) as nat)
                == seq![digit_char(d as nat)] + fraction_digits(rem as nat, den as nat, (places - k - 1) as nat));
            assert(nd + fraction_digits(rem as nat, den as nat, (places - k - 1) as nat)
                =~= done + fraction_digits(old_rem as nat, den as nat, (places - k) as nat));
            done = nd;
        }
        k = k + 1;
    }
    assert(done + Seq::<char>::empty() =~= done);
    s
}

} // verus!

verus! {

/// 10^n.
pub open spec fn pow10(n: nat) -> nat
    decreases n,
{
    if n == 0 {
        1
    } else {
        10 * pow10((n - 1) as nat)
    }
}

/// Powers of ten are positive.
pub proof fn lemma_pow10_positive(n: nat)
    ensures
        pow10(n) >= 1,
    decreases n,
{
    if n > 0 {
        lemma_pow10_positive((n - 1) as nat);
    }
}

proof fn lemma_pow10_grows(a: nat, b: nat)
    requires
        a <= b,
    ensures
        pow10(a) <= pow10(b),
    decreases b - a,
{
    if a < b {
        lemma_pow10_grows(a, (b - 1) as nat);
    }
}

/// The divisor of an amount with `decimals` decimal places, where it is at
/// most `u128::MAX / 10`.
pub fn decimals_divisor(decimals: u8) -> (r: Option<u128>)
    ensures
        match r {
            Some(p) => p as nat == pow10(decimals as nat) && p <= u128::MAX / 10,
            None => pow10(decimals as nat) > u128::MAX / 10,
        },
{
    let mut p: u128 = 1;
    let mut i: u8 = 0;
    while i < decimals
        invariant
            i <= decimals,
            p as nat == pow10(i as nat),
            p <= u128::MAX / 10,
        decreases decimals - i,
    {
        if p > u128::MAX / 100 {
            proof {
                lemma_pow10_grows((i + 1) as nat, decimals as nat);
            }
            return None;
        }
        p = p * 10;
        i = i + 1;
    }
    Some(p)
}

/// `num / den` rounded to the nearest whole number, halves up.
pub open spec fn rounded_div(num: int, den: int) -> int {
    (2 * num + den) / (2 * den)
}

/// `num / den` rounded to the nearest whole number, halves up.
pub fn rounded_quotient(num: u128, den: u128) -> (r: u128)
    requires
        0 < den <= u128::MAX / 2,
    ensures
        r as int == rounded_div(num as int, den as int),
{
    let q = num / den;
    let rem = num % den;
    proof {
        let n = num as int;
        let d = den as int;
        assert(n == d * q + rem) by {
            vstd::arithmetic::div_mod::lemma_fundamental_div_mod(n, d);
        }
        if 2 * rem >= d {
            assert(2 * n + d == (2 * d) * (q + 1) + (2 * rem - d)) by (nonlinear_arith)
                requires n == d * q + rem;
            assert((2 * n + d) / (2 * d) == q + 1) by (nonlinear_arith)
                requires 2 * n + d == (2 * d) * (q + 1) + (2 * rem - d), 0 <= 2 * rem - d < 2 * d, d > 0;
        } else {
            assert(2 * n + d == (2 * d) * q + (2 * rem + d)) by (nonlinear_arith)
                requires n == d * q + rem;
            assert((2 * n + d) / (2 * d) == q) by (nonlinear_arith)
                requires 2 * n + d == (2 * d) * q + (2 * rem + d), 0 <= 2 * rem + d < 2 * d, d > 0;
        }
        assert(q <= num) by (nonlinear_arith) requires q == num / den, den > 0;
    }
    if 2 * rem >= den {
        if q == u128::MAX {
            assert(false) by (nonlinear_arith) requires q == num / den, den > 0, rem == num % den, 2 * rem >= den, q == u128::MAX, num <= u128::MAX;
        }
        q + 1
    } else {
        q
    }
}

} // verus!
