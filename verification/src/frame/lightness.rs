//! Perceived lightness as exact integer arithmetic.
//!
//! With `R`, `G` and `B` the mean red, green and blue of a picture, each
//! 0 to 255, its perceived lightness is
//! `100 * sqrt((241 R² + 691 G² + 68 B²) / 1000) / 255` percent. The
//! functions here round that number to the nearest integer without
//! computing a square root or a mean: they work on the sums of the channels
//! and on squared inequalities, which hold exactly.

use vstd::arithmetic::div_mod::{lemma_fundamental_div_mod, lemma_mod_bound};
use vstd::prelude::*;

verus! {

/// A thousand times the weighted sum of squares under the root.
pub open spec fn weighted_squares(r: int, g: int, b: int) -> int {
    241 * (r * r) + 691 * (g * g) + 68 * (b * b)
}

/// The square of `2 * percent + 1`, in the unit in which
/// `8 * weighted_squares` of the channel means is the square of twice the
/// lightness. A lightness is below `percent + 1/2` exactly when that square
/// is below this bound.
pub open spec fn half_step_bound(percent: int) -> int {
    (2 * percent + 1) * (2 * percent + 1) * 13005
}

/// `percent` is the lightness of a picture of `pixels` pixels whose red,
/// green and blue sum up to `r`, `g` and `b`, rounded to the nearest
/// integer, halves upwards: the lightness is at least `percent - 1/2` and
/// below `percent + 1/2`.
pub open spec fn is_lightness_percent(percent: int, r: int, g: int, b: int, pixels: int) -> bool {
    let scaled = 8 * weighted_squares(r, g, b);
    &&& 0 <= percent <= 100
    &&& percent > 0 ==> half_step_bound(percent - 1) * (pixels * pixels) <= scaled
    &&& scaled < half_step_bound(percent) * (pixels * pixels)
}

/// The lightness percentage of a picture of `pixels` pixels whose red,
/// green and blue sum up to `r`, `g` and `b`.
pub open spec fn lightness_percent(r: int, g: int, b: int, pixels: int) -> int {
    choose|percent: int| is_lightness_percent(percent, r, g, b, pixels)
}

proof fn lemma_bounds_increase(low: int, high: int)
    by (nonlinear_arith)
    requires
        0 <= low <= high,
    ensures
        half_step_bound(low) <= half_step_bound(high),
{
}

proof fn lemma_scale_is_monotonic(low: int, high: int, unit: int)
    by (nonlinear_arith)
    requires
        low <= high,
        0 <= unit,
    ensures
        low * unit <= high * unit,
{
}

/// At most one percentage is the rounded lightness of a picture.
pub proof fn lemma_lightness_percent_is_unique(
    first: int,
    second: int,
    r: int,
    g: int,
    b: int,
    pixels: int,
)
    requires
        is_lightness_percent(first, r, g, b, pixels),
        is_lightness_percent(second, r, g, b, pixels),
    ensures
        first == second,
{
    let unit = pixels * pixels;
    assert(0 <= unit) by (nonlinear_arith)
        requires
            unit == pixels * pixels,
    ;
    if first < second {
        lemma_bounds_increase(first, second - 1);
        lemma_scale_is_monotonic(half_step_bound(first), half_step_bound(second - 1), unit);
    }
    if second < first {
        lemma_bounds_increase(second, first - 1);
        lemma_scale_is_monotonic(half_step_bound(second), half_step_bound(first - 1), unit);
    }
}

/// Splits the square of a channel sum by powers of the pixel count: with
/// the terms `(q, m, b)` returned, `sum² = pixels² q² + pixels m + b`.
fn square_terms(sum: u128, pixels: u128) -> (terms: (u128, u128, u128))
    requires
        1 <= pixels <= u64::MAX,
        sum <= 255 * pixels,
    ensures
        terms.0 <= 255,
        terms.1 <= 511 * pixels,
        terms.2 < pixels,
        sum * sum == pixels * pixels * (terms.0 * terms.0) + pixels * terms.1 + terms.2,
{
    let quotient: u128 = sum / pixels;
    let rest: u128 = sum % pixels;
    proof {
        lemma_fundamental_div_mod(sum as int, pixels as int);
        lemma_mod_bound(sum as int, pixels as int);
        assert(quotient <= 255) by (nonlinear_arith)
            requires
                sum == pixels * quotient + rest,
                sum <= 255 * pixels,
                0 <= rest,
                0 < pixels,
        ;
        assert(rest * rest < pixels * pixels && pixels * pixels <= 0xffff_ffff_ffff_ffff
            * 0xffff_ffff_ffff_ffff) by (nonlinear_arith)
            requires
                0 <= rest < pixels,
                pixels <= 0xffff_ffff_ffff_ffff,
        ;
    }
    let rest_squared: u128 = rest * rest;
    let carry: u128 = rest_squared / pixels;
    let low: u128 = rest_squared % pixels;
    proof {
        lemma_fundamental_div_mod(rest_squared as int, pixels as int);
        lemma_mod_bound(rest_squared as int, pixels as int);
        assert(carry < pixels) by (nonlinear_arith)
            requires
                rest_squared == pixels * carry + low,
                rest_squared < pixels * pixels,
                0 <= low,
                0 < pixels,
        ;
        assert(2 * quotient * rest <= 510 * pixels) by (nonlinear_arith)
            requires
                quotient <= 255,
                rest < pixels,
        ;
        assert(sum * sum == pixels * pixels * (quotient * quotient) + pixels * (2 * quotient
            * rest + carry) + low) by (nonlinear_arith)
            requires
                sum == pixels * quotient + rest,
                rest_squared == rest * rest,
                rest_squared == pixels * carry + low,
        ;
    }
    let middle: u128 = 2 * quotient * rest + carry;
    (quotient, middle, low)
}

proof fn lemma_weighted_terms(
    r: int,
    g: int,
    b: int,
    n: int,
    qr: int,
    mr: int,
    lr: int,
    qg: int,
    mg: int,
    lg: int,
    qb: int,
    mb: int,
    lb: int,
)
    by (nonlinear_arith)
    requires
        r * r == n * n * (qr * qr) + n * mr + lr,
        g * g == n * n * (qg * qg) + n * mg + lg,
        b * b == n * n * (qb * qb) + n * mb + lb,
    ensures
        8 * weighted_squares(r, g, b) == n * n * (8 * (241 * (qr * qr) + 691 * (qg * qg) + 68 * (qb
            * qb))) + n * (8 * (241 * mr + 691 * mg + 68 * mb)) + 8 * (241 * lr + 691 * lg + 68
            * lb),
{
}

proof fn lemma_carry(
    scaled: int,
    n: int,
    high: int,
    middle: int,
    low: int,
    middle_carry: int,
    middle_rest: int,
    low_carry: int,
    low_rest: int,
    carry: int,
    rest: int,
)
    by (nonlinear_arith)
    requires
        scaled == n * n * high + n * middle + low,
        middle == n * middle_carry + middle_rest,
        low == n * low_carry + low_rest,
        middle_rest + low_carry == n * carry + rest,
        0 < n,
        0 <= rest < n,
        0 <= low_rest < n,
    ensures
        scaled == (n * n) * (high + middle_carry + carry) + (n * rest + low_rest),
        0 <= n * rest + low_rest < n * n,
{
}

proof fn lemma_whole_steps(scaled: int, unit: int, whole: int, rest: int, bound: int)
    by (nonlinear_arith)
    requires
        scaled == unit * whole + rest,
        0 <= rest < unit,
    ensures
        (bound * unit <= scaled) == (bound <= whole),
{
}

proof fn lemma_whole_is_bounded(r: int, g: int, b: int, n: int, whole: int, rest: int)
    by (nonlinear_arith)
    requires
        0 < n,
        0 <= r <= 255 * n,
        0 <= g <= 255 * n,
        0 <= b <= 255 * n,
        8 * weighted_squares(r, g, b) == (n * n) * whole + rest,
        0 <= rest,
    ensures
        whole <= 520_200_000,
{
}

/// The rounded lightness percentage of a picture of `pixels` pixels whose
/// red, green and blue sum up to `r`, `g` and `b`.
pub fn percent_of_sums(r: u128, g: u128, b: u128, pixels: usize) -> (percent: u8)
    requires
        pixels >= 1,
        r <= 255 * pixels,
        g <= 255 * pixels,
        b <= 255 * pixels,
    ensures
        is_lightness_percent(percent as int, r as int, g as int, b as int, pixels as int),
        percent == lightness_percent(r as int, g as int, b as int, pixels as int),
{
    let n: u128 = pixels as u128;
    let (qr, mr, lr) = square_terms(r, n);
    let (qg, mg, lg) = square_terms(g, n);
    let (qb, mb, lb) = square_terms(b, n);
    proof {
        assert(qr * qr <= 65025 && qg * qg <= 65025 && qb * qb <= 65025) by (nonlinear_arith)
            requires
                qr <= 255,
                qg <= 255,
                qb <= 255,
        ;
    }
    let high: u128 = 8 * (241 * (qr * qr) + 691 * (qg * qg) + 68 * (qb * qb));
    let middle: u128 = 8 * (241 * mr + 691 * mg + 68 * mb);
    let low: u128 = 8 * (241 * lr + 691 * lg + 68 * lb);
    let middle_carry: u128 = middle / n;
    let middle_rest: u128 = middle % n;
    let low_carry: u128 = low / n;
    let low_rest: u128 = low % n;
    let joined: u128 = middle_rest + low_carry;
    let carry: u128 = joined / n;
    let rest: u128 = joined % n;
    let ghost scaled = 8 * weighted_squares(r as int, g as int, b as int);
    let ghost unit = n * n;
    proof {
        lemma_fundamental_div_mod(middle as int, n as int);
        lemma_mod_bound(middle as int, n as int);
        lemma_fundamental_div_mod(low as int, n as int);
        lemma_mod_bound(low as int, n as int);
        lemma_fundamental_div_mod(joined as int, n as int);
        lemma_mod_bound(joined as int, n as int);
        assert(middle_carry <= middle) by (nonlinear_arith)
            requires
                middle == n * middle_carry + middle_rest,
                0 <= middle_rest,
                0 <= middle_carry,
                1 <= n,
        ;
        assert(carry <= joined) by (nonlinear_arith)
            requires
                joined == n * carry + rest,
                0 <= rest,
                0 <= carry,
                1 <= n,
        ;
        lemma_weighted_terms(
            r as int,
            g as int,
            b as int,
            n as int,
            qr as int,
            mr as int,
            lr as int,
            qg as int,
            mg as int,
            lg as int,
            qb as int,
            mb as int,
            lb as int,
        );
        lemma_carry(
            scaled,
            n as int,
            high as int,
            middle as int,
            low as int,
            middle_carry as int,
            middle_rest as int,
            low_carry as int,
            low_rest as int,
            carry as int,
            rest as int,
        );
        lemma_whole_is_bounded(
            r as int,
            g as int,
            b as int,
            n as int,
            high + middle_carry + carry,
            n * rest + low_rest,
        );
    }
    let whole: u128 = high + middle_carry + carry;
    let mut percent: u8 = 0;
    while percent < 100 && steps(percent) <= whole
        invariant
            percent <= 100,
            percent > 0 ==> half_step_bound(percent - 1) <= whole,
        decreases 100 - percent,
    {
        percent += 1;
    }
    proof {
        let found = percent as int;
        if found == 100 {
            assert(half_step_bound(100) == 525_415_005) by (nonlinear_arith);
        }
        lemma_whole_steps(scaled, unit, whole as int, n * rest + low_rest, half_step_bound(found));
        if found > 0 {
            lemma_whole_steps(
                scaled,
                unit,
                whole as int,
                n * rest + low_rest,
                half_step_bound(found - 1),
            );
        }
        assert(is_lightness_percent(found, r as int, g as int, b as int, pixels as int));
        lemma_lightness_percent_is_unique(
            found,
            lightness_percent(r as int, g as int, b as int, pixels as int),
            r as int,
            g as int,
            b as int,
            pixels as int,
        );
    }
    percent
}

/// The bound below which a lightness rounds to `percent` or less.
fn steps(percent: u8) -> (bound: u128)
    requires
        percent <= 100,
    ensures
        bound == half_step_bound(percent as int),
{
    let odd: u128 = 2 * (percent as u128) + 1;
    assert(odd * odd <= 40401) by (nonlinear_arith)
        requires
            odd <= 201,
    ;
    odd * odd * 13005
}

} // verus!
