//! Fractional clock dividers.
//!
//! A divider divides a source clock by `integer + numerator / denominator`. The search below
//! picks those three numbers for a wanted output frequency.
use vstd::math::abs;
use vstd::prelude::*;

verus! {

/// A fractional divider: the source clock is divided by
/// `integer + numerator / denominator`.
#[derive(Debug, Clone, Copy, PartialEq, Eq, Structural)]
pub struct ClkDiv {
    /// Integer part of the divider.
    pub integer: u32,
    /// Denominator of the fractional part.
    pub denominator: u32,
    /// Numerator of the fractional part.
    pub numerator: u32,
}

/// The value a saturating 32-bit computation of the natural number `x` gives.
pub open spec fn clip(x: int) -> int {
    if x > u32::MAX {
        u32::MAX as int
    } else {
        x
    }
}

/// The distance between two integers.
pub open spec fn distance(a: int, b: int) -> int {
    if a > b {
        a - b
    } else {
        b - a
    }
}

/// The quotient `rest / freq` times `a`, rounded half up. Both intermediate values saturate.
pub open spec fn rounded(rest: int, freq: int, a: int) -> int {
    clip(clip(a * rest) + freq / 2) / freq
}

/// `rest / freq` is so near to one that rounding may give a fraction of one: `rest` is below
/// `freq` by at most twice `freq / (max_fract - 1)`, rounded down.
pub open spec fn is_near_one(rest: int, freq: int, max_fract: int) -> bool {
    rest >= freq - 2 * (freq / (max_fract - 1))
}

/// The numerator that, over the denominator `a`, stands for `rest / freq`: the rounded one. A
/// bounded one stays below `a`, because a fraction of one is a matter of the integer part.
pub open spec fn best_numerator(rest: int, freq: int, bounded: bool, a: int) -> int {
    if bounded && rounded(rest, freq, a) >= a {
        a - 1
    } else {
        rounded(rest, freq, a)
    }
}

/// How far `best_numerator / a` misses `rest / freq`, times `a * freq`. The two products
/// saturate.
pub open spec fn residual(rest: int, freq: int, bounded: bool, a: int) -> int {
    distance(clip(freq * best_numerator(rest, freq, bounded, a)), clip(rest * a))
}

/// The divider is rounded up to the next integer: `rest / freq` is greater than
/// `1 - 1 / ((max_fract - 1) * 2)`, the middle between one and the largest fraction below it.
pub open spec fn carries(rest: int, freq: int, max_fract: int) -> bool {
    2 * ((max_fract - 1) * (freq - rest)) < freq
}

/// `a` is the smallest of the denominators `2 .. max_fract` whose residual is least.
pub open spec fn is_best_denominator(
    rest: int,
    freq: int,
    bounded: bool,
    max_fract: int,
    a: int,
) -> bool {
    let least = residual(rest, freq, bounded, a);
    &&& 2 <= a < max_fract
    &&& forall|o: int|
        2 <= o < max_fract ==> least <= #[trigger] residual(rest, freq, bounded, o)
    &&& forall|o: int| 2 <= o < a ==> least < #[trigger] residual(rest, freq, bounded, o)
}

/// The integer part of the divider from `src` to `exp`.
pub open spec fn integer_part(src: int, exp: int, max_fract: int) -> int {
    if carries(src % exp, exp, max_fract) {
        src / exp + 1
    } else {
        src / exp
    }
}

/// `d` is the divider from `src` to `exp` with a denominator below `max_fract`: a whole divider
/// has the fraction `0 / 2`, any other the fraction with the best denominator. Near one the
/// numerators are bounded.
pub open spec fn is_clk_div(src: int, exp: int, max_fract: int, d: ClkDiv) -> bool {
    let rest = src % exp;
    let bounded = is_near_one(rest, exp, max_fract);
    &&& d.integer == integer_part(src, exp, max_fract)
    &&& if rest == 0 || carries(rest, exp, max_fract) {
        d.denominator == 2 && d.numerator == 0
    } else {
        &&& is_best_denominator(rest, exp, bounded, max_fract, d.denominator as int)
        &&& d.numerator == best_numerator(rest, exp, bounded, d.denominator as int)
    }
}

/// The divider from `src` to `exp` with a denominator below `max_fract`.
pub open spec fn clk_div(src: int, exp: int, max_fract: int) -> ClkDiv {
    choose|d: ClkDiv| is_clk_div(src, exp, max_fract, d)
}

/// No product saturates in the search for the divider from `src` to `exp`, or there is no search
/// because the divider is rounded up.
pub open spec fn search_is_exact(src: int, exp: int, max_fract: int) -> bool {
    ||| carries(src % exp, exp, max_fract)
    ||| (max_fract - 1) * (src % exp) + exp / 2 <= u32::MAX
}

/// There is a divider from `src` to `exp` whose integer part is positive and lies in
/// `min_integ .. max_integ`.
pub open spec fn has_clk_div(
    src: int,
    exp: int,
    min_integ: int,
    max_integ: int,
    max_fract: int,
) -> bool {
    &&& exp != 0
    &&& max_fract > 2
    &&& min_integ <= integer_part(src, exp, max_fract) < max_integ
    &&& integer_part(src, exp, max_fract) != 0
}

/// The distance between `a` and `b`.
#[inline(always)]
pub fn sub_abs(a: u32, b: u32) -> (r: u32)
    ensures
        r == distance(a as int, b as int),
        a <= b ==> r == b - a,
        b <= a ==> r == a - b,
{
    if a > b {
        a - b
    } else {
        b - a
    }
}

/// The product of `a` and `b`, or `u32::MAX` where that does not fit.
#[inline(always)]
pub(crate) fn saturating_mul(a: u32, b: u32) -> (r: u32)
    ensures
        r == clip(a * b),
        a * b <= 0xffff_ffff ==> r == a * b,
        a * b > 0xffff_ffff ==> r == 0xffff_ffff,
{
    match a.checked_mul(b) {
        Some(product) => product,
        None => u32::MAX,
    }
}

/// A numerator is at most its denominator, and a bounded one lies below it.
proof fn lemma_numerator_bound(rest: int, freq: int, bounded: bool, a: int)
    requires
        0 <= rest < freq,
        1 <= a,
    ensures
        0 <= rounded(rest, freq, a) <= a,
        0 <= best_numerator(rest, freq, bounded, a) <= a,
        bounded ==> best_numerator(rest, freq, bounded, a) < a,
{
    let n = clip(clip(a * rest) + freq / 2);
    assert(0 <= a * rest <= a * freq - a) by (nonlinear_arith)
        requires
            0 <= rest <= freq - 1,
            1 <= a,
    ;
    assert(0 <= n / freq <= a) by (nonlinear_arith)
        requires
            0 <= n <= a * freq - a + freq / 2,
            1 <= a,
            0 < freq,
    {
        assert(n < (a + 1) * freq);
    }
}

/// A residual is never `u32::MAX`, so the first denominator is always taken.
proof fn lemma_residual_bound(rest: int, freq: int, bounded: bool, a: int)
    requires
        0 < rest < freq <= u32::MAX,
        2 <= a,
    ensures
        0 <= residual(rest, freq, bounded, a) < u32::MAX,
{
    let b = best_numerator(rest, freq, bounded, a);
    lemma_numerator_bound(rest, freq, bounded, a);
    assert(a * rest >= 2) by (nonlinear_arith)
        requires
            a >= 2,
            rest >= 1,
    ;
    assert(rest * a == a * rest) by (nonlinear_arith);
    assert(freq * b >= 0) by (nonlinear_arith)
        requires
            freq > 0,
            b >= 0,
    ;
    if freq * b == 0 {
        assert(b == 0) by (nonlinear_arith)
            requires
                freq > 0,
                freq * b == 0,
        ;
        let n = clip(clip(a * rest) + freq / 2);
        assert(n < freq) by (nonlinear_arith)
            requires
                freq > 0,
                n / freq == 0,
                n >= 0,
        ;
    }
}

/// Nothing is carried where nothing is left.
proof fn lemma_whole_is_not_carried(freq: int, max_fract: int)
    requires
        0 < freq,
        2 < max_fract,
    ensures
        !carries(0, freq, max_fract),
{
    assert((max_fract - 1) * (freq - 0) >= freq) by (nonlinear_arith)
        requires
            max_fract > 2,
            freq > 0,
    ;
}

/// Whether the remainder `rest` of a division by `freq` is carried into the integer part.
fn is_carried(rest: u32, freq: u32, max_fract: u32) -> (r: bool)
    requires
        rest < freq,
        2 < max_fract,
    ensures
        r == carries(rest as int, freq as int, max_fract as int),
{
    let (parts, missing): (u64, u64) = ((max_fract - 1) as u64, (freq - rest) as u64);
    proof {
        assert(0 <= parts * missing <= 0xffff_ffff * 0xffff_ffff) by (nonlinear_arith)
            requires
                0 <= parts <= 0xffff_ffff,
                0 <= missing <= 0xffff_ffff,
        ;
    }
    // Twice the product may not fit, so half of `freq` is rounded up instead.
    parts * missing < (freq as u64 + 1) / 2
}

/// Searches the divider from `src_freq_hz` to `exp_freq_hz`. Its integer part must be positive
/// and lie in `min_integ .. max_integ`; its denominator stays below `max_fract`.
///
/// Gives `None` where there is no such divider, where the wanted frequency is zero and where
/// `max_fract` leaves no denominator.
pub fn calc_clk_div_frac_accurate(
    src_freq_hz: u32,
    exp_freq_hz: u32,
    min_integ: u32,
    max_integ: u32,
    max_fract: u32,
) -> (div: Option<ClkDiv>)
    ensures
        div is Some <==> has_clk_div(
            src_freq_hz as int,
            exp_freq_hz as int,
            min_integ as int,
            max_integ as int,
            max_fract as int,
        ),
        div is Some ==> {
            &&& is_clk_div(src_freq_hz as int, exp_freq_hz as int, max_fract as int, div->0)
            &&& div->0 == clk_div(src_freq_hz as int, exp_freq_hz as int, max_fract as int)
        },
{
    if exp_freq_hz == 0 || max_fract <= 2 {
        return None;
    }
    let mut div_denom: u32 = 2;
    let mut div_numer: u32 = 0;
    let mut div_integ: u32 = src_freq_hz / exp_freq_hz;
    let freq_error: u32 = src_freq_hz % exp_freq_hz;
    proof {
        lemma_whole_is_not_carried(exp_freq_hz as int, max_fract as int);
    }

    if freq_error != 0 {
        if !is_carried(freq_error, exp_freq_hz, max_fract) {
            let part: u32 = exp_freq_hz / (max_fract - 1);
            let bounded: bool = freq_error >= exp_freq_hz.saturating_sub(saturating_mul(part, 2));
            proof {
                let (e, parts) = (exp_freq_hz as int, max_fract - 1);
                assert(2 * (e / parts) <= e) by (nonlinear_arith)
                    requires
                        parts >= 2,
                        e >= 0,
                ;
            }
            let mut min_sub: u32 = u32::MAX;
            let mut best_a: u32 = 2;
            let mut best_b: u32 = 0;

            let mut a: u32 = 2;
            while min_sub != 0 && a < max_fract
                invariant
                    0 < freq_error < exp_freq_hz,
                    2 <= a <= max_fract,
                    2 < max_fract,
                    a == 2 ==> min_sub == u32::MAX && best_a == 2,
                    a > 2 ==> {
                        &&& 2 <= best_a < a
                        &&& best_b == best_numerator(
                            freq_error as int,
                            exp_freq_hz as int,
                            bounded,
                            best_a as int,
                        )
                        &&& min_sub == residual(
                            freq_error as int,
                            exp_freq_hz as int,
                            bounded,
                            best_a as int,
                        )
                    },
                    forall|o: int|
                        2 <= o < a ==> min_sub <= #[trigger] residual(
                            freq_error as int,
                            exp_freq_hz as int,
                            bounded,
                            o,
                        ),
                    forall|o: int|
                        2 <= o < best_a ==> min_sub < #[trigger] residual(
                            freq_error as int,
                            exp_freq_hz as int,
                            bounded,
                            o,
                        ),
                decreases max_fract - a,
            {
                proof {
                    lemma_residual_bound(freq_error as int, exp_freq_hz as int, bounded, a as int);
                }
                let rounded_b: u32 = saturating_mul(a, freq_error).saturating_add(exp_freq_hz / 2)
                    / exp_freq_hz;
                let b: u32 = if bounded && rounded_b >= a {
                    a - 1
                } else {
                    rounded_b
                };
                let s: u32 = sub_abs(
                    saturating_mul(exp_freq_hz, b),
                    saturating_mul(freq_error, a),
                );
                if s < min_sub {
                    min_sub = s;
                    best_a = a;
                    best_b = b;
                }
                a += 1;
            }
            proof {
                assert forall|o: int| 2 <= o < max_fract implies residual(
                    freq_error as int,
                    exp_freq_hz as int,
                    bounded,
                    best_a as int,
                ) <= #[trigger] residual(freq_error as int, exp_freq_hz as int, bounded, o) by {
                    lemma_residual_bound(freq_error as int, exp_freq_hz as int, bounded, o);
                }
            }
            div_denom = best_a;
            div_numer = best_b;
        } else {
            proof {
                let (s, e) = (src_freq_hz as int, exp_freq_hz as int);
                assert(2 * (s / e) <= s) by (nonlinear_arith)
                    requires
                        e >= 2,
                        s >= 0,
                ;
            }
            div_integ = div_integ.saturating_add(1);
        }
    }
    if div_integ < min_integ || div_integ >= max_integ || div_integ == 0 {
        return None;
    }
    let div = ClkDiv { integer: div_integ, denominator: div_denom, numerator: div_numer };
    proof {
        let (s, e, m) = (src_freq_hz as int, exp_freq_hz as int, max_fract as int);
        assert(is_clk_div(s, e, m, div));
        law_divider_is_unique(s, e, m, div, clk_div(s, e, m));
    }
    Some(div)
}

/// Of the denominators below `max_fract` one is the best.
proof fn lemma_best_denominator_exists(rest: int, freq: int, bounded: bool, max_fract: int)
    requires
        2 < max_fract,
    ensures
        exists|a: int| is_best_denominator(rest, freq, bounded, max_fract, a),
    decreases max_fract,
{
    if max_fract == 3 {
        assert(is_best_denominator(rest, freq, bounded, max_fract, 2));
    } else {
        let last = max_fract - 1;
        lemma_best_denominator_exists(rest, freq, bounded, last);
        let a = choose|a: int| is_best_denominator(rest, freq, bounded, last, a);
        if residual(rest, freq, bounded, last) < residual(rest, freq, bounded, a) {
            assert(is_best_denominator(rest, freq, bounded, max_fract, last));
        } else {
            assert(is_best_denominator(rest, freq, bounded, max_fract, a));
        }
    }
}

/// Two dividers from one frequency to another, with the same bound on the denominator, are
/// equal: the search has one result.
pub proof fn law_divider_is_unique(src: int, exp: int, max_fract: int, d1: ClkDiv, d2: ClkDiv)
    requires
        is_clk_div(src, exp, max_fract, d1),
        is_clk_div(src, exp, max_fract, d2),
    ensures
        d1 == d2,
{
    let rest = src % exp;
    let bounded = is_near_one(rest, exp, max_fract);
    if rest != 0 && !carries(rest, exp, max_fract) {
        let (a1, a2) = (d1.denominator as int, d2.denominator as int);
        assert(residual(rest, exp, bounded, a1) <= residual(rest, exp, bounded, a2));
        assert(residual(rest, exp, bounded, a2) <= residual(rest, exp, bounded, a1));
        assert(a1 == a2);
    }
}

/// There is a divider between any two frequencies, as soon as there is a denominator to choose.
pub proof fn law_divider_exists(src: u32, exp: u32, max_fract: u32)
    requires
        0 < exp,
        2 < max_fract,
    ensures
        is_clk_div(
            src as int,
            exp as int,
            max_fract as int,
            clk_div(src as int, exp as int, max_fract as int),
        ),
{
    let (s, e, m) = (src as int, exp as int, max_fract as int);
    let rest = s % e;
    assert(s / e <= s && (e >= 2 ==> 2 * (s / e) <= s)) by (nonlinear_arith)
        requires
            e >= 1,
            s >= 0,
    ;
    let bounded = is_near_one(rest, e, m);
    lemma_whole_is_not_carried(e, m);
    let integer = integer_part(s, e, m) as u32;
    if rest == 0 || carries(rest, e, m) {
        assert(is_clk_div(s, e, m, ClkDiv { integer, denominator: 2, numerator: 0 }));
    } else {
        lemma_best_denominator_exists(rest, e, bounded, m);
        let a = choose|a: int| is_best_denominator(rest, e, bounded, m, a);
        let b = best_numerator(rest, e, bounded, a);
        lemma_numerator_bound(rest, e, bounded, a);
        assert(is_clk_div(
            s,
            e,
            m,
            ClkDiv { integer, denominator: a as u32, numerator: b as u32 },
        ));
    }
}

/// The fraction of a divider is at most one, and its denominator lies in `2 .. max_fract`.
pub proof fn law_fraction_at_most_one(src: u32, exp: u32, max_fract: u32, d: ClkDiv)
    requires
        0 < exp,
        2 < max_fract,
        is_clk_div(src as int, exp as int, max_fract as int, d),
    ensures
        d.numerator <= d.denominator,
        2 <= d.denominator < max_fract,
{
    let (s, e) = (src as int, exp as int);
    let bounded = is_near_one(s % e, e, max_fract as int);
    if s % e != 0 {
        lemma_numerator_bound(s % e, e, bounded, d.denominator as int);
    }
}

/// Where nothing saturates, the numerator misses least of all, or, where it is bounded, of all
/// that stay below the denominator. The rounded one misses by at most half of `freq`. Where
/// rounding gives the denominator, that one misses by `a * (freq - rest)`, and the bounded one by
/// what this leaves of `freq`.
proof fn lemma_rounding(rest: int, freq: int, bounded: bool, a: int, n: int)
    requires
        0 <= rest < freq,
        1 <= a,
        a * rest + freq / 2 <= u32::MAX,
        bounded ==> n < a,
    ensures
        residual(rest, freq, bounded, a) == distance(
            freq * best_numerator(rest, freq, bounded, a),
            rest * a,
        ),
        residual(rest, freq, bounded, a) <= distance(freq * n, rest * a),
        !bounded || rounded(rest, freq, a) < a ==> {
            &&& 2 * residual(rest, freq, bounded, a) <= freq
            &&& 2 * (rest * a - freq * best_numerator(rest, freq, bounded, a)) < freq
        },
        rounded(rest, freq, a) >= a ==> {
            &&& 2 * (a * (freq - rest)) <= freq
            &&& residual(rest, freq, bounded, a) == if bounded {
                freq - a * (freq - rest)
            } else {
                a * (freq - rest)
            }
        },
{
    let b = rounded(rest, freq, a);
    lemma_numerator_bound(rest, freq, bounded, a);
    let c = best_numerator(rest, freq, bounded, a);
    let p = a * rest;
    assert(rest * a == p) by (nonlinear_arith)
        requires
            p == a * rest,
    ;
    assert(0 <= p) by (nonlinear_arith)
        requires
            p == a * rest,
            0 <= rest,
            a >= 1,
    ;
    let t = p + freq / 2;
    assert(b == t / freq);
    assert(0 <= freq * b <= t < freq * b + freq) by (nonlinear_arith)
        requires
            b == t / freq,
            t >= 0,
            freq >= 1,
    ;
    assert(0 <= freq * c <= freq * b) by (nonlinear_arith)
        requires
            0 <= c <= b,
            freq >= 1,
    ;
    if n > c {
        assert(freq * n >= freq * c + freq) by (nonlinear_arith)
            requires
                n >= c + 1,
                freq >= 1,
        ;
    } else if n < c {
        assert(freq * n <= freq * c - freq) by (nonlinear_arith)
            requires
                n <= c - 1,
                freq >= 1,
        ;
    }
    if b >= a {
        assert(freq * b >= freq * a && freq * (a - 1) == freq * a - freq && a * (freq - rest)
            == freq * a - p) by (nonlinear_arith)
            requires
                b >= a,
                freq >= 1,
                p == a * rest,
        ;
    }
}

/// How far the divider `total / denominator` misses `src / exp`, times `denominator * exp`.
pub open spec fn divider_error(src: int, exp: int, total: int, denominator: int) -> int {
    distance(exp * total, src * denominator)
}

/// The divider as a whole number of parts of its denominator.
pub open spec fn total_parts(d: ClkDiv) -> int {
    d.integer * d.denominator + d.numerator
}

/// Without the integer part, a divider and the ratio that it stands for differ as before.
proof fn lemma_error_of_fraction(src: int, exp: int, n: int, a: int)
    requires
        0 < exp,
    ensures
        divider_error(src, exp, (src / exp) * a + n, a) == distance(exp * n, (src % exp) * a),
{
    let (q, rest) = (src / exp, src % exp);
    assert(exp * (q * a + n) - src * a == exp * n - rest * a) by (nonlinear_arith)
        requires
            exp > 0,
            q == src / exp,
            rest == src % exp,
    ;
}

/// No product saturates for a smaller denominator either.
proof fn lemma_no_saturation(rest: int, freq: int, max_fract: int, a: int)
    requires
        0 <= rest,
        a <= max_fract - 1,
        (max_fract - 1) * rest + freq / 2 <= u32::MAX,
    ensures
        a * rest + freq / 2 <= u32::MAX,
{
    assert(a * rest <= (max_fract - 1) * rest) by (nonlinear_arith)
        requires
            a <= max_fract - 1,
            rest >= 0,
    ;
}

/// The largest denominator misses by at most half of `freq`, unless the divider is rounded up.
proof fn lemma_last_denominator(rest: int, freq: int, max_fract: int)
    requires
        0 < rest < freq,
        2 < max_fract,
        (max_fract - 1) * rest + freq / 2 <= u32::MAX,
        !carries(rest, freq, max_fract),
    ensures
        2 * residual(
            rest,
            freq,
            is_near_one(rest, freq, max_fract),
            max_fract - 1,
        ) <= freq,
{
    let bounded = is_near_one(rest, freq, max_fract);
    lemma_rounding(rest, freq, bounded, max_fract - 1, 0);
}

/// What the search guarantees of its result, over the residuals.
proof fn lemma_closest_divider(
    src: u32,
    exp: u32,
    max_fract: u32,
    d: ClkDiv,
    total: int,
    a: int,
)
    requires
        0 < exp,
        2 < max_fract,
        search_is_exact(src as int, exp as int, max_fract as int),
        is_clk_div(src as int, exp as int, max_fract as int, d),
        !carries((src % exp) as int, exp as int, max_fract as int),
        2 <= a < max_fract,
        is_near_one((src % exp) as int, exp as int, max_fract as int) ==> total < (src / exp + 1)
            * a,
    ensures
        divider_error(src as int, exp as int, total_parts(d), d.denominator as int)
            <= divider_error(src as int, exp as int, total, a),
        a < d.denominator ==> divider_error(
            src as int,
            exp as int,
            total_parts(d),
            d.denominator as int,
        ) < divider_error(src as int, exp as int, total, a),
        2 * divider_error(src as int, exp as int, total_parts(d), d.denominator as int) <= exp,
        2 * (src * d.denominator - exp * total_parts(d)) < exp || (is_near_one(
            (src % exp) as int,
            exp as int,
            max_fract as int,
        ) && d.numerator == d.denominator - 1),
{
    let (s, e, m) = (src as int, exp as int, max_fract as int);
    let (q, rest) = (s / e, s % e);
    let (den, num) = (d.denominator as int, d.numerator as int);
    let n = total - q * a;
    let bounded = is_near_one(rest, e, m);
    assert((q + 1) * a == q * a + a) by (nonlinear_arith);
    lemma_error_of_fraction(s, e, num, den);
    assert(e * (q * den + num) - s * den == e * num - rest * den) by (nonlinear_arith)
        requires
            e > 0,
            q == s / e,
            rest == s % e,
    ;
    lemma_error_of_fraction(s, e, n, a);
    if rest == 0 {
        assert(e * num - rest * den == 0) by (nonlinear_arith)
            requires
                num == 0,
                rest == 0,
        ;
    } else {
        lemma_no_saturation(rest, e, m, den);
        lemma_no_saturation(rest, e, m, a);
        lemma_numerator_bound(rest, e, bounded, den);
        lemma_rounding(rest, e, bounded, den, num);
        lemma_rounding(rest, e, bounded, a, n);
        lemma_last_denominator(rest, e, m);
        assert(residual(rest, e, bounded, den) <= residual(rest, e, bounded, a));
        assert(residual(rest, e, bounded, den) <= residual(rest, e, bounded, m - 1));
    }
}

/// A divider that is not rounded up to the next integer misses the wanted ratio by no more than
/// any other divider `total / a` with a denominator `a` in `2 .. max_fract`, when each miss is
/// measured in the units of its own denominator, and by no more than half such a unit. Near the
/// next integer the other divider must stay below that integer. No product of the search may
/// saturate.
/// Of several denominators with the same miss the smallest is taken, and of two numerators with
/// the same miss the larger.
pub proof fn law_closest_divider(
    src: u32,
    exp: u32,
    max_fract: u32,
    d: ClkDiv,
    total: int,
    a: int,
)
    requires
        0 < exp,
        2 < max_fract,
        is_clk_div(src as int, exp as int, max_fract as int, d),
        2 * ((max_fract - 1) * (exp - src % exp)) >= exp,
        (max_fract - 1) * (src % exp) as int + exp as int / 2 <= 0xffff_ffff,
        2 <= a < max_fract,
        exp - src % exp <= 2 * (exp as int / (max_fract - 1)) ==> total < (src / exp + 1) * a,
    ensures
        ({
            let parts = d.integer * d.denominator + d.numerator;
            let miss = abs(exp * parts - src * d.denominator);
            let other = abs(exp * total - src * a);
            &&& miss <= other
            &&& a < d.denominator ==> miss < other
            &&& 2 * miss <= exp
            &&& 2 * (src * d.denominator - exp * parts) < exp || (exp - src % exp <= 2 * (
            exp as int / (max_fract - 1)) && d.numerator == d.denominator - 1)
        }),
{
    lemma_closest_divider(src, exp, max_fract, d, total, a);
}

/// Where nothing saturates, the best fraction is below one even if it is not bounded.
proof fn lemma_best_is_below_one(rest: int, freq: int, max_fract: int, a: int)
    requires
        0 < rest < freq,
        2 < max_fract,
        (max_fract - 1) * rest + freq / 2 <= u32::MAX,
        is_best_denominator(rest, freq, is_near_one(rest, freq, max_fract), max_fract, a),
    ensures
        best_numerator(rest, freq, is_near_one(rest, freq, max_fract), a) < a,
{
    let bounded = is_near_one(rest, freq, max_fract);
    lemma_numerator_bound(rest, freq, bounded, a);
    if !bounded && rounded(rest, freq, a) >= a {
        let (x, parts) = (freq - rest, max_fract - 1);
        let part = freq / parts;
        let k = freq / x;
        lemma_no_saturation(rest, freq, max_fract, a);
        lemma_rounding(rest, freq, bounded, a, a);
        assert(k * x <= freq < k * x + x) by (nonlinear_arith)
            requires
                k == freq / x,
                x > 0,
        ;
        assert(freq < parts * x) by (nonlinear_arith)
            requires
                x >= 2 * part + 1,
                part == freq / parts,
                freq > 0,
                parts >= 2,
        {
            assert(freq < (part + 1) * parts);
            assert((part + 1) * parts <= (2 * part + 1) * parts);
            assert((2 * part + 1) * parts <= x * parts);
        }
        assert(a * x >= 2 * x) by (nonlinear_arith)
            requires
                a >= 2,
                x > 0,
        ;
        assert(2 <= k <= parts) by (nonlinear_arith)
            requires
                k * x <= freq < k * x + x,
                2 * x <= freq < parts * x,
                x > 0,
        ;
        lemma_no_saturation(rest, freq, max_fract, k);
        lemma_rounding(rest, freq, bounded, k, k - 1);
        assert(freq * (k - 1) == freq * k - freq && rest * k == freq * k - k * x)
            by (nonlinear_arith)
            requires
                x == freq - rest,
        ;
        assert(residual(rest, freq, bounded, k) < x);
        assert(residual(rest, freq, bounded, a) <= residual(rest, freq, bounded, k));
    }
}

/// Where no product of the search saturates, the fraction of a divider is below one.
pub proof fn law_fraction_below_one(src: u32, exp: u32, max_fract: u32, d: ClkDiv)
    requires
        0 < exp,
        2 < max_fract,
        2 * ((max_fract - 1) * (exp - src % exp)) < exp || (max_fract - 1) * (src % exp) as int
            + exp as int / 2 <= 0xffff_ffff,
        is_clk_div(src as int, exp as int, max_fract as int, d),
    ensures
        d.numerator < d.denominator,
{
    let (s, e, m) = (src as int, exp as int, max_fract as int);
    if s % e != 0 && !carries(s % e, e, m) {
        lemma_best_is_below_one(s % e, e, m, d.denominator as int);
    }
}

/// A fraction is in lowest terms: its numerator and denominator have a common factor only where
/// it is `0 / 2`. No product of the search may saturate.
pub proof fn law_fraction_in_lowest_terms(
    src: u32,
    exp: u32,
    max_fract: u32,
    d: ClkDiv,
    factor: int,
)
    requires
        0 < exp,
        2 < max_fract,
        2 * ((max_fract - 1) * (exp - src % exp)) < exp || (max_fract - 1) * (src % exp) as int
            + exp as int / 2 <= 0xffff_ffff,
        is_clk_div(src as int, exp as int, max_fract as int, d),
        2 <= factor,
        d.numerator as int % factor == 0,
        d.denominator as int % factor == 0,
    ensures
        d.numerator == 0,
        d.denominator == 2,
{
    let (s, e, m) = (src as int, exp as int, max_fract as int);
    let rest = s % e;
    let (den, num) = (d.denominator as int, d.numerator as int);
    let bounded = is_near_one(rest, e, m);
    if rest != 0 && !carries(rest, e, m) {
        let (a, n) = (den / factor, num / factor);
        assert(den == factor * a && num == factor * n) by {
            vstd::arithmetic::div_mod::lemma_fundamental_div_mod(den, factor);
            vstd::arithmetic::div_mod::lemma_fundamental_div_mod(num, factor);
        }
        lemma_numerator_bound(rest, e, bounded, den);
        lemma_best_is_below_one(rest, e, m, den);
        lemma_no_saturation(rest, e, m, den);
        lemma_rounding(rest, e, bounded, den, num);
        assert(1 <= a < den && 0 <= n < a) by (nonlinear_arith)
            requires
                den == factor * a,
                num == factor * n,
                0 <= num < den,
                factor >= 2,
        ;
        if a >= 2 {
            lemma_no_saturation(rest, e, m, a);
            lemma_rounding(rest, e, bounded, a, n);
            let miss = distance(e * n, rest * a);
            assert(e * num == factor * (e * n) && rest * den == factor * (rest * a))
                by (nonlinear_arith)
                requires
                    den == factor * a,
                    num == factor * n,
            ;
            assert(distance(factor * (e * n), factor * (rest * a)) >= miss) by (nonlinear_arith)
                requires
                    factor >= 2,
                    miss == distance(e * n, rest * a),
            ;
            assert(residual(rest, e, bounded, den) < residual(rest, e, bounded, a));
        } else {
            assert(num == 0) by (nonlinear_arith)
                requires
                    num == factor * n,
                    n == 0,
            ;
            if den > 2 {
                lemma_no_saturation(rest, e, m, 2);
                lemma_rounding(rest, e, bounded, 2, 0);
                assert(residual(rest, e, bounded, den) == rest * den && rest * 2 <= rest * den && e * 0 == 0)
                    by (nonlinear_arith)
                    requires
                        residual(rest, e, bounded, den) == distance(e * num, rest * den),
                        num == 0,
                        den > 2,
                        rest > 0,
                ;
                assert(residual(rest, e, bounded, den) < residual(rest, e, bounded, 2));
            }
        }
    }
}

/// For a wanted frequency of at most `u32::MAX / max_fract` no product of the search saturates.
pub proof fn law_search_is_exact(src: u32, exp: u32, max_fract: u32)
    requires
        0 < exp,
        2 < max_fract,
        max_fract * exp <= u32::MAX,
    ensures
        search_is_exact(src as int, exp as int, max_fract as int),
{
    let (s, e, m) = (src as int, exp as int, max_fract as int);
    let rest = s % e;
    assert((m - 1) * rest + e <= m * e) by (nonlinear_arith)
        requires
            0 <= rest < e,
            m > 2,
    ;
}

/// A divider that is rounded up is the next integer. It exceeds the wanted ratio, by less than
/// half of one of `max_fract - 1` equal parts.
pub proof fn law_rounded_up_divider(src: u32, exp: u32, max_fract: u32, d: ClkDiv)
    requires
        0 < exp,
        2 < max_fract,
        is_clk_div(src as int, exp as int, max_fract as int, d),
        2 * ((max_fract - 1) * (exp - src % exp)) < exp,
    ensures
        d.integer == src / exp + 1,
        d.numerator == 0,
        d.denominator == 2,
        0 < exp * d.integer - src,
        2 * ((max_fract - 1) * (exp * d.integer - src)) < exp,
{
    let (s, e) = (src as int, exp as int);
    let (q, rest) = (s / e, s % e);
    assert(e * (q + 1) - s == e - rest && 0 < e - rest) by (nonlinear_arith)
        requires
            e > 0,
            q == s / e,
            rest == s % e,
    ;
}

/// A divider is rounded up exactly where the next integer is nearer to the wanted ratio than
/// every divider below that integer: where it is rounded up, any `n / a` with `a` in
/// `2 .. max_fract` and `n < a` misses `rest / freq` by more than one does; where it is not, the
/// largest such fraction misses by no more.
pub proof fn law_rounds_up_where_nearer(rest: int, freq: int, max_fract: int, n: int, a: int)
    requires
        0 <= rest < freq,
        2 < max_fract,
        2 <= a < max_fract,
        n < a,
    ensures
        carries(rest, freq, max_fract) ==> a * (freq - rest) < abs(freq * n - rest * a),
        !carries(rest, freq, max_fract) ==> abs(
            freq * (max_fract - 2) - rest * (max_fract - 1),
        ) <= (max_fract - 1) * (freq - rest),
{
    let (x, last) = (freq - rest, max_fract - 1);
    if carries(rest, freq, max_fract) {
        assert(rest * a == freq * a - x * a && freq * n <= freq * a - freq && a * x <= last * x
            && x * a == a * x) by (nonlinear_arith)
            requires
                x == freq - rest,
                n <= a - 1,
                freq > 0,
                x > 0,
                a <= last,
        ;
    } else {
        assert(freq * (max_fract - 2) == freq * last - freq && rest * last == freq * last - last
            * x) by (nonlinear_arith)
            requires
                x == freq - rest,
                last == max_fract - 1,
        ;
    }
}

/// Which of `parts` equal parts of `freq` the remainder of `i * rest` falls into.
spec fn part_of(rest: int, freq: int, parts: int, i: int) -> int {
    ((rest * i) % freq) * parts / freq
}

/// Two of the first `parts + 1` multiples of `rest` fall into the same part.
proof fn lemma_two_in_one_part(rest: int, freq: int, parts: int) -> (pair: (int, int))
    requires
        0 < freq,
        1 <= parts,
    ensures
        0 <= pair.0 < pair.1 <= parts,
        part_of(rest, freq, parts, pair.0) == part_of(rest, freq, parts, pair.1),
{
    let s = Seq::new((parts + 1) as nat, |i: int| part_of(rest, freq, parts, i));
    assert forall|i: int| 0 <= i < s.len() implies 0 <= #[trigger] s[i] < parts by {
        let r = (rest * i) % freq;
        assert(0 <= r * parts < freq * parts && 0 <= r * parts / freq < parts)
            by (nonlinear_arith)
            requires
                0 <= r < freq,
                1 <= parts,
        ;
    }
    if s.no_duplicates() {
        s.unique_seq_to_set();
        vstd::set_lib::lemma_int_range(0, parts);
        assert(s.to_set().subset_of(vstd::set_lib::set_int_range(0, parts)));
        vstd::set_lib::lemma_len_subset(s.to_set(), vstd::set_lib::set_int_range(0, parts));
    }
    let (i, j) = choose|i: int, j: int|
        0 <= i < s.len() && 0 <= j < s.len() && i != j && s[i] == s[j];
    if i < j {
        (i, j)
    } else {
        (j, i)
    }
}

/// Some multiple of `rest`, up to the `parts`-th, comes closer to a multiple of `freq` than one
/// of `parts` equal parts of `freq`.
proof fn lemma_close_multiple(rest: int, freq: int, parts: int) -> (pair: (int, int))
    requires
        0 < freq,
        1 <= parts,
    ensures
        1 <= pair.0 <= parts,
        distance(freq * pair.1, rest * pair.0) * parts < freq,
{
    let (i, j) = lemma_two_in_one_part(rest, freq, parts);
    let (ri, rj) = ((rest * i) % freq, (rest * j) % freq);
    let (qi, qj) = ((rest * i) / freq, (rest * j) / freq);
    let part = part_of(rest, freq, parts, i);
    let (a, b) = (j - i, qj - qi);
    assert(part * freq <= ri * parts < part * freq + freq) by (nonlinear_arith)
        requires
            part == ri * parts / freq,
            freq > 0,
    ;
    assert(part * freq <= rj * parts < part * freq + freq) by (nonlinear_arith)
        requires
            part == rj * parts / freq,
            freq > 0,
    ;
    assert(rest * i == freq * qi + ri && rest * j == freq * qj + rj) by {
        vstd::arithmetic::div_mod::lemma_fundamental_div_mod(rest * i, freq);
        vstd::arithmetic::div_mod::lemma_fundamental_div_mod(rest * j, freq);
    }
    assert(freq * b - rest * a == ri - rj) by (nonlinear_arith)
        requires
            rest * i == freq * qi + ri,
            rest * j == freq * qj + rj,
            a == j - i,
            b == qj - qi,
    ;
    assert((ri - rj) * parts == ri * parts - rj * parts) by (nonlinear_arith);
    assert((rj - ri) * parts == rj * parts - ri * parts) by (nonlinear_arith);
    (a, b)
}

/// The residual of the best denominator, where nothing saturates and `rest / freq` is at least
/// one of `max_fract - 1` parts away from one.
proof fn lemma_best_residual(rest: int, freq: int, max_fract: int, a: int)
    requires
        0 < rest < freq,
        2 < max_fract,
        freq <= (max_fract - 1) * (freq - rest),
        (max_fract - 1) * rest + freq / 2 <= u32::MAX,
        is_best_denominator(rest, freq, is_near_one(rest, freq, max_fract), max_fract, a),
    ensures
        residual(rest, freq, is_near_one(rest, freq, max_fract), a) * (max_fract - 1) < 2 * freq,
{
    let bounded = is_near_one(rest, freq, max_fract);
    let parts = max_fract - 1;
    let (k, n) = lemma_close_multiple(rest, freq, parts);
    let miss = distance(freq * n, rest * k);
    let best = residual(rest, freq, bounded, a);
    assert(k == 1 ==> rest * k == rest) by (nonlinear_arith);
    if n >= k {
        assert(miss * parts >= freq) by (nonlinear_arith)
            requires
                miss >= freq * n - rest * k,
                n >= k >= 1,
                freq > rest,
                freq > 0,
                parts >= 1,
                parts * (freq - rest) >= freq,
        {
            assert(freq * n - rest * k >= freq * k - rest * k);
            assert(freq * k - rest * k == k * (freq - rest));
            assert(k * (freq - rest) >= freq - rest);
            assert(miss * parts >= (freq - rest) * parts);
        }
    } else if k >= 2 {
        lemma_no_saturation(rest, freq, max_fract, k);
        lemma_rounding(rest, freq, bounded, k, n);
        assert(best <= residual(rest, freq, bounded, k));
        assert(best * parts <= miss * parts) by (nonlinear_arith)
            requires
                best <= miss,
                parts >= 0,
        ;
    } else {
        assert(freq * n <= 0) by (nonlinear_arith)
            requires
                n <= 0,
                freq > 0,
        ;
        lemma_no_saturation(rest, freq, max_fract, 2);
        lemma_rounding(rest, freq, bounded, 2, 0);
        assert(best <= residual(rest, freq, bounded, 2) <= 2 * rest);
        assert(best * parts < 2 * freq) by (nonlinear_arith)
            requires
                best <= 2 * rest,
                rest <= miss,
                miss * parts < freq,
                parts >= 1,
        ;
    }
}

/// The residual of a denominator, with a bounded numerator, with which `rest / freq` is less than one part away from one.
proof fn lemma_residual_near_one(rest: int, freq: int, a: int)
    requires
        0 <= rest < freq,
        1 <= a,
        a * (freq - rest) < freq,
        a * rest + freq / 2 <= u32::MAX,
    ensures
        residual(rest, freq, true, a) == freq - a * (freq - rest),
{
    let b = best_numerator(rest, freq, true, a);
    lemma_numerator_bound(rest, freq, true, a);
    lemma_rounding(rest, freq, true, a, a - 1);
    assert(rest * a == freq * a - a * (freq - rest) && freq * (a - 1) == freq * a - freq && freq
        * b <= freq * (a - 1)) by (nonlinear_arith)
        requires
            b <= a - 1,
            freq > 0,
    ;
}

/// Closer to one than that, the largest fraction below one is the best.
proof fn lemma_best_near_one(rest: int, freq: int, max_fract: int, a: int)
    requires
        0 < rest < freq,
        2 < max_fract,
        (max_fract - 1) * (freq - rest) < freq,
        !carries(rest, freq, max_fract),
        (max_fract - 1) * rest + freq / 2 <= u32::MAX,
        is_best_denominator(rest, freq, is_near_one(rest, freq, max_fract), max_fract, a),
    ensures
        a == max_fract - 1,
        2 * residual(rest, freq, is_near_one(rest, freq, max_fract), a) <= freq,
{
    let (x, last) = (freq - rest, max_fract - 1);
    let bounded = is_near_one(rest, freq, max_fract);
    assert(x <= freq / last) by (nonlinear_arith)
        requires
            last * x < freq,
            last >= 2,
    ;
    assert(bounded);
    assert(a * x <= last * x && (a < last ==> a * x < last * x)) by (nonlinear_arith)
        requires
            a <= last,
            x > 0,
    ;
    lemma_no_saturation(rest, freq, max_fract, a);
    lemma_residual_near_one(rest, freq, a);
    lemma_residual_near_one(rest, freq, last);
    lemma_last_denominator(rest, freq, max_fract);
    assert(residual(rest, freq, bounded, a) <= residual(rest, freq, bounded, last));
}

/// A divider misses the wanted ratio by less than `1 / (max_fract - 1)`. Where the wanted ratio
/// is at least that far below the next integer, it misses by less than
/// `2 / ((max_fract - 1) * denominator)`. No product of the search may saturate.
pub proof fn law_divider_accuracy(src: u32, exp: u32, max_fract: u32, d: ClkDiv)
    requires
        0 < exp,
        2 < max_fract,
        2 * ((max_fract - 1) * (exp - src % exp)) < exp || (max_fract - 1) * (src % exp) as int
            + exp as int / 2 <= 0xffff_ffff,
        is_clk_div(src as int, exp as int, max_fract as int, d),
    ensures
        ({
            let error = abs(
                exp * (d.integer * d.denominator + d.numerator) - src * d.denominator,
            );
            &&& error * (max_fract - 1) < exp * d.denominator
            &&& exp <= (max_fract - 1) * (exp - src % exp) ==> error * (max_fract - 1) < 2 * exp
        }),
{
    let (s, e, m) = (src as int, exp as int, max_fract as int);
    let rest = s % e;
    let bounded = is_near_one(rest, e, m);
    let (den, num) = (d.denominator as int, d.numerator as int);
    let error = divider_error(s, e, total_parts(d), den);
    assert(e * den >= 2 * e) by (nonlinear_arith)
        requires
            den >= 2,
            e > 0,
    ;
    if carries(rest, e, m) {
        law_rounded_up_divider(src, exp, max_fract, d);
        let i = d.integer as int;
        let over = e * i - s;
        assert(e * total_parts(d) - s * den == 2 * over) by (nonlinear_arith)
            requires
                total_parts(d) == i * den,
                over == e * i - s,
                den == 2,
        ;
        assert(error * (m - 1) == 2 * ((m - 1) * over)) by (nonlinear_arith)
            requires
                error == 2 * over,
        ;
    } else {
        lemma_error_of_fraction(s, e, num, den);
        if rest == 0 {
            assert(e * num == 0 && rest * den == 0) by (nonlinear_arith)
                requires
                    num == 0,
                    rest == 0,
            ;
            assert(error * (m - 1) == 0) by (nonlinear_arith)
                requires
                    error == 0,
            ;
        } else {
            lemma_no_saturation(rest, e, m, den);
            lemma_numerator_bound(rest, e, bounded, den);
            lemma_rounding(rest, e, bounded, den, num);
            if e <= (m - 1) * (e - rest) {
                lemma_best_residual(rest, e, m, den);
            } else {
                lemma_best_near_one(rest, e, m, den);
                assert(error * (m - 1) < e * den) by (nonlinear_arith)
                    requires
                        2 * error <= e,
                        0 <= error,
                        den == m - 1,
                        m > 2,
                        e > 0,
                ;
            }
        }
    }
}

/// The integer part is the whole number of times that `exp` goes into `src`, or one more: one
/// more exactly where the rest is greater than `1 - 1 / ((max_fract - 1) * 2)` of `exp`. A divider
/// that is whole, or rounded up, has the fraction `0 / 2`.
pub proof fn law_integer_part(src: u32, exp: u32, max_fract: u32, d: ClkDiv)
    requires
        0 < exp,
        2 < max_fract,
        is_clk_div(src as int, exp as int, max_fract as int, d),
    ensures
        d.integer == src / exp || d.integer == src / exp + 1,
        d.integer == src / exp + 1 <==> 2 * ((max_fract - 1) * (exp - src % exp)) < exp,
        src % exp == 0 || d.integer == src / exp + 1 ==> d.numerator == 0 && d.denominator == 2,
{
    lemma_whole_is_not_carried(exp as int, max_fract as int);
}

/// A divider is found exactly where its integer part is positive and lies in
/// `min_integ .. max_integ`, a frequency is wanted and there is a denominator to choose.
pub proof fn law_divider_is_found(
    src: u32,
    exp: u32,
    min_integ: u32,
    max_integ: u32,
    max_fract: u32,
    d: ClkDiv,
)
    requires
        0 < exp && 2 < max_fract ==> is_clk_div(src as int, exp as int, max_fract as int, d),
    ensures
        has_clk_div(
            src as int,
            exp as int,
            min_integ as int,
            max_integ as int,
            max_fract as int,
        ) <==> {
            &&& 0 < exp
            &&& 2 < max_fract
            &&& 1 <= d.integer
            &&& min_integ <= d.integer < max_integ
        },
{
}

/// On all inputs, the search takes the smallest denominator of least miss, where a numerator is
/// `a * rest / exp` rounded half up, a miss is the distance of `exp * numerator` and `rest * a`,
/// and every value stops at `u32::MAX`. Near the next integer numerators stay below `a`.
pub proof fn law_search(src: u32, exp: u32, max_fract: u32, d: ClkDiv, a: int)
    requires
        0 < exp,
        2 < max_fract,
        is_clk_div(src as int, exp as int, max_fract as int, d),
        src % exp != 0,
        2 * ((max_fract - 1) * (exp - src % exp)) >= exp,
        2 <= a < max_fract,
    ensures
        ({
            let rest = (src % exp) as int;
            let near = exp - rest <= 2 * (exp as int / (max_fract - 1));
            let stop = |x: int|
                if x > 0xffff_ffff {
                    0xffff_ffff
                } else {
                    x
                };
            let half_up = |k: int| stop(stop(k * rest) + exp as int / 2) / exp as int;
            let numerator = |k: int|
                if near && half_up(k) >= k {
                    k - 1
                } else {
                    half_up(k)
                };
            let miss = |k: int| abs(stop(exp * numerator(k)) - stop(rest * k));
            let den = d.denominator as int;
            &&& 2 <= den < max_fract
            &&& d.numerator == numerator(den)
            &&& miss(den) <= miss(a)
            &&& a < den ==> miss(den) < miss(a)
        }),
{
    let (rest, e) = (src as int % exp as int, exp as int);
    let bounded = is_near_one(rest, e, max_fract as int);
    let den = d.denominator as int;
    assert(residual(rest, e, bounded, den) <= residual(rest, e, bounded, a));
    assert(a < den ==> residual(rest, e, bounded, den) < residual(rest, e, bounded, a));
}

} // verus!
