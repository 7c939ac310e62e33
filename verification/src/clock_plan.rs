//! How the DAC digital controller is clocked.
//!
//! The APB clock is divided twice: by a fractional divider, and by a timer that triggers one
//! conversion every `interval` ticks.
use crate::clkdiv::{
    calc_clk_div_frac_accurate, clip, clk_div, distance, divider_error, has_clk_div,
    law_divider_accuracy, law_divider_exists, law_fraction_at_most_one, saturating_mul,
    search_is_exact, total_parts, ClkDiv,
};
use vstd::math::abs;
use vstd::prelude::*;

verus! {

/// Longest trigger interval.
pub const MAX_INTERVAL: u32 = 4095;

/// One more than the largest integer part of the divider.
pub const MAX_INTEGER: u32 = 257;

/// One more than the largest denominator of the divider.
pub const MAX_FRACT: u32 = 64;

/// The settings of the divider and of the trigger timer.
#[derive(Debug, Clone, Copy, PartialEq, Eq, Structural)]
pub struct ClockPlan {
    /// Ticks between two triggers.
    pub interval: u32,
    /// Divider of the APB clock.
    pub div: ClkDiv,
}

/// The rate of triggers for conversions at `freq_hz`: with two alternating channels there are
/// two triggers per conversion.
pub open spec fn trigger_freq(freq_hz: int, is_alternate: bool) -> int {
    if is_alternate {
        clip(2 * freq_hz)
    } else {
        clip(freq_hz)
    }
}

/// The interval for a clock that runs `total_div` times per trigger.
pub open spec fn trigger_interval(total_div: int) -> int {
    if total_div < 256 {
        1
    } else if total_div < 8192 {
        total_div / 2
    } else {
        MAX_INTERVAL as int
    }
}

/// Conversions at `freq_hz` can be clocked: the clock runs at least twice per trigger, and
/// fewer times than 256 rounds of the longest interval.
pub open spec fn is_supported(apb_hz: int, freq_hz: int, is_alternate: bool) -> bool {
    &&& freq_hz != 0
    &&& 2 <= apb_hz / trigger_freq(freq_hz, is_alternate) < 256 * MAX_INTERVAL
}

/// The settings for conversions at `freq_hz`.
pub open spec fn clock_plan(apb_hz: int, freq_hz: int, is_alternate: bool) -> ClockPlan {
    let trans = trigger_freq(freq_hz, is_alternate);
    let interval = trigger_interval(apb_hz / trans);
    ClockPlan {
        interval: interval as u32,
        div: clk_div(apb_hz / interval, trans, MAX_FRACT as int),
    }
}

/// What is left for the divider lies within its bounds.
proof fn lemma_divider_in_range(apb: int, trans: int)
    requires
        0 <= apb <= u32::MAX,
        0 < trans <= u32::MAX,
        2 <= apb / trans < 256 * MAX_INTERVAL,
    ensures
        1 <= trigger_interval(apb / trans) <= MAX_INTERVAL,
        2 <= apb / trigger_interval(apb / trans) / trans <= 255,
        has_clk_div(
            apb / trigger_interval(apb / trans),
            trans,
            1,
            MAX_INTEGER as int,
            MAX_FRACT as int,
        ),
{
    let total = apb / trans;
    let interval = trigger_interval(total);
    vstd::arithmetic::div_mod::lemma_div_denominator(apb, interval, trans);
    vstd::arithmetic::div_mod::lemma_div_denominator(apb, trans, interval);
    vstd::arithmetic::mul::lemma_mul_is_commutative(interval, trans);
    assert(apb / interval / trans == total / interval);
    assert(2 <= total / interval <= 255) by (nonlinear_arith)
        requires
            0 < interval,
            2 * interval <= total < 256 * interval,
    ;
}

/// Finds the settings for conversions at `freq_hz`; `None` where there are none.
pub fn plan_clock(apb_hz: u32, freq_hz: u32, is_alternate: bool) -> (plan: Option<ClockPlan>)
    ensures
        plan is Some <==> is_supported(apb_hz as int, freq_hz as int, is_alternate),
        plan is Some ==> plan->0 == clock_plan(apb_hz as int, freq_hz as int, is_alternate),
        plan is Some <==> ({
            let rate = if is_alternate {
                2 * freq_hz
            } else {
                freq_hz as int
            };
            0 < freq_hz && 2 * rate <= apb_hz < 256 * 4095 * rate
        }),
{
    proof {
        law_supported_frequencies(apb_hz, freq_hz, is_alternate);
    }
    if freq_hz == 0 {
        return None;
    }
    let triggers: u32 = if is_alternate {
        2
    } else {
        1
    };
    let trans_freq_hz: u32 = saturating_mul(freq_hz, triggers);
    let total_div: u32 = apb_hz / trans_freq_hz;
    if total_div < 2 {
        return None;
    }
    let interval: u32 = if total_div < 256 {
        1
    } else if total_div < 8192 {
        total_div / 2
    } else {
        MAX_INTERVAL
    };
    if interval * 256 <= total_div {
        return None;
    }
    proof {
        lemma_divider_in_range(apb_hz as int, trans_freq_hz as int);
    }
    let src_freq_hz: u32 = apb_hz / interval;
    match calc_clk_div_frac_accurate(src_freq_hz, trans_freq_hz, 1, MAX_INTEGER, MAX_FRACT) {
        Some(div) => Some(ClockPlan { interval, div }),
        None => None,
    }
}

/// The settings fit the fields of the registers: twelve bits for the interval, eight for the
/// integer part less one, six for the denominator and for the numerator.
pub proof fn law_plan_fits_registers(apb_hz: u32, freq_hz: u32, is_alternate: bool)
    requires
        is_supported(apb_hz as int, freq_hz as int, is_alternate),
    ensures
        ({
            let plan = clock_plan(apb_hz as int, freq_hz as int, is_alternate);
            &&& 1 <= plan.interval < 0x1000
            &&& 2 <= plan.div.integer <= 0x100
            &&& 2 <= plan.div.denominator < 0x40
            &&& plan.div.numerator <= plan.div.denominator
        }),
{
    let trans = trigger_freq(freq_hz as int, is_alternate);
    let interval = trigger_interval(apb_hz as int / trans);
    let src = apb_hz as int / interval;
    lemma_divider_in_range(apb_hz as int, trans);
    assert(0 <= src <= apb_hz) by (nonlinear_arith)
        requires
            interval >= 1,
            apb_hz >= 0,
            src == apb_hz as int / interval,
    ;
    law_divider_exists(src as u32, trans as u32, MAX_FRACT);
    law_fraction_at_most_one(
        src as u32,
        trans as u32,
        MAX_FRACT,
        clk_div(src, trans, MAX_FRACT as int),
    );
}

/// How far the settings miss the rate of triggers.
proof fn lemma_planned_rate(apb_hz: u32, freq_hz: u32, is_alternate: bool)
    requires
        is_supported(apb_hz as int, freq_hz as int, is_alternate),
        search_is_exact(
            apb_hz as int / trigger_interval(
                apb_hz as int / trigger_freq(freq_hz as int, is_alternate),
            ),
            trigger_freq(freq_hz as int, is_alternate),
            MAX_FRACT as int,
        ),
    ensures
        ({
            let rate = trigger_freq(freq_hz as int, is_alternate);
            let plan = clock_plan(apb_hz as int, freq_hz as int, is_alternate);
            let den = plan.div.denominator as int;
            63 * distance(
                rate * (plan.interval * total_parts(plan.div)),
                apb_hz * den,
            ) <= plan.interval * ((rate + 63) * den)
        }),
{
    let apb = apb_hz as int;
    let rate = trigger_freq(freq_hz as int, is_alternate);
    let interval = trigger_interval(apb / rate);
    let src = apb / interval;
    let div = clk_div(src, rate, MAX_FRACT as int);
    let den = div.denominator as int;
    let total = total_parts(div);
    let error = divider_error(src, rate, total, den);
    law_plan_fits_registers(apb_hz, freq_hz, is_alternate);
    lemma_divider_in_range(apb, rate);
    assert(0 <= src <= apb && interval * src <= apb < interval * src + interval)
        by (nonlinear_arith)
        requires
            interval >= 1,
            apb >= 0,
            src == apb / interval,
    ;
    law_divider_exists(src as u32, rate as u32, MAX_FRACT);
    law_divider_accuracy(src as u32, rate as u32, MAX_FRACT, div);
    let (x, y) = (rate * total - src * den, apb - interval * src);
    let bound = rate * den;
    assert(error == distance(rate * total, src * den));
    assert(-bound <= 63 * x <= bound);
    assert(rate * (interval * total) - apb * den == interval * x - y * den) by (nonlinear_arith)
        requires
            x == rate * total - src * den,
            y == apb - interval * src,
    ;
    assert(-(interval * bound) <= 63 * (interval * x) <= interval * bound) by (nonlinear_arith)
        requires
            -bound <= 63 * x <= bound,
            interval >= 1,
    ;
    assert(0 <= y * den <= interval * den) by (nonlinear_arith)
        requires
            0 <= y < interval,
            den >= 2,
    ;
    assert(interval * ((rate + 63) * den) == interval * bound + 63 * (interval * den))
        by (nonlinear_arith)
        requires
            bound == rate * den,
    ;
}

/// There is one trigger per conversion, and two with alternating channels, as far as that many
/// fit.
pub proof fn law_trigger_rate(freq_hz: u32)
    ensures
        trigger_freq(freq_hz as int, false) == freq_hz,
        2 * freq_hz <= 0xffff_ffff ==> trigger_freq(freq_hz as int, true) == 2 * freq_hz,
        2 * freq_hz > 0xffff_ffff ==> trigger_freq(freq_hz as int, true) == 0xffff_ffff,
{
}

/// A quotient is at least, or less than, a number exactly where the dividend is at least, or
/// less than, that many times the divisor.
proof fn lemma_quotient_bounds(n: int, d: int, k: int)
    requires
        0 <= n,
        0 < d,
        0 <= k,
    ensures
        k <= n / d <==> k * d <= n,
{
    assert(k <= n / d <==> k * d <= n) by (nonlinear_arith)
        requires
            0 <= n,
            0 < d,
            0 <= k,
    {
        let q = n / d;
        assert(q * d <= n < q * d + d);
        if k <= q {
            assert(k * d <= q * d);
        } else {
            assert(k * d >= (q + 1) * d);
            assert((q + 1) * d == q * d + d);
        }
    }
}

/// A frequency is supported exactly where it is positive and the APB clock runs at least twice,
/// and less than 256 * 4095 times, as fast as its triggers.
pub proof fn law_supported_frequencies(apb_hz: u32, freq_hz: u32, is_alternate: bool)
    ensures
        is_supported(apb_hz as int, freq_hz as int, is_alternate) <==> {
            let rate = if is_alternate {
                2 * freq_hz
            } else {
                freq_hz as int
            };
            &&& 0 < freq_hz
            &&& 2 * rate <= apb_hz
            &&& apb_hz < 256 * 4095 * rate
        },
{
    law_trigger_rate(freq_hz);
    if 0 < freq_hz {
        let rate = trigger_freq(freq_hz as int, is_alternate);
        lemma_quotient_bounds(apb_hz as int, rate, 2);
        lemma_quotient_bounds(apb_hz as int, rate, 1_048_320);
    }
}

/// Every frequency between two supported ones is supported.
pub proof fn law_supported_range(
    apb_hz: u32,
    low: u32,
    freq_hz: u32,
    high: u32,
    is_alternate: bool,
)
    requires
        low <= freq_hz <= high,
        is_supported(apb_hz as int, low as int, is_alternate),
        is_supported(apb_hz as int, high as int, is_alternate),
    ensures
        is_supported(apb_hz as int, freq_hz as int, is_alternate),
{
    law_supported_frequencies(apb_hz, low, is_alternate);
    law_supported_frequencies(apb_hz, high, is_alternate);
    let triggers: int = if is_alternate {
        2
    } else {
        1
    };
    assert(2 * (triggers * freq_hz) <= 2 * (triggers * high) && 256 * 4095 * (triggers * low) <= 256
        * 4095 * (triggers * freq_hz)) by (nonlinear_arith)
        requires
            low <= freq_hz <= high,
            0 < triggers,
    ;
    law_supported_frequencies(apb_hz, freq_hz, is_alternate);
}

/// The trigger timer is only used where the divider alone does not reach: the interval is one
/// where the APB clock runs less than 256 times as fast as the triggers, the longest where it
/// runs at least 8192 times as fast, and in between half of that ratio, rounded down.
pub proof fn law_planned_interval(apb_hz: u32, freq_hz: u32, is_alternate: bool)
    requires
        is_supported(apb_hz as int, freq_hz as int, is_alternate),
    ensures
        ({
            let rate = if is_alternate {
                2 * freq_hz
            } else {
                freq_hz as int
            };
            let interval = clock_plan(
                apb_hz as int,
                freq_hz as int,
                is_alternate,
            ).interval as int;
            &&& apb_hz < 256 * rate ==> interval == 1
            &&& 256 * rate <= apb_hz < 8192 * rate ==> 2 * interval * rate <= apb_hz < 2 * (interval
                + 1) * rate
            &&& 8192 * rate <= apb_hz ==> interval == 4095
        }),
{
    law_trigger_rate(freq_hz);
    law_supported_frequencies(apb_hz, freq_hz, is_alternate);
    let rate = trigger_freq(freq_hz as int, is_alternate);
    let total = apb_hz as int / rate;
    let interval = trigger_interval(total);
    lemma_quotient_bounds(apb_hz as int, rate, 256);
    lemma_quotient_bounds(apb_hz as int, rate, 8192);
    lemma_quotient_bounds(apb_hz as int, rate, 2 * interval);
    lemma_quotient_bounds(apb_hz as int, rate, 2 * (interval + 1));
}

/// The divider is the one from the APB clock over the interval to the rate of triggers, with
/// denominators below 64.
pub proof fn law_planned_divider(apb_hz: u32, freq_hz: u32, is_alternate: bool)
    requires
        is_supported(apb_hz as int, freq_hz as int, is_alternate),
    ensures
        ({
            let rate = if is_alternate {
                2 * freq_hz
            } else {
                freq_hz as int
            };
            let plan = clock_plan(apb_hz as int, freq_hz as int, is_alternate);
            crate::clkdiv::is_clk_div(apb_hz as int / plan.interval as int, rate, 64, plan.div)
        }),
{
    law_trigger_rate(freq_hz);
    law_supported_frequencies(apb_hz, freq_hz, is_alternate);
    law_plan_fits_registers(apb_hz, freq_hz, is_alternate);
    let rate = trigger_freq(freq_hz as int, is_alternate);
    let interval = trigger_interval(apb_hz as int / rate);
    lemma_divider_in_range(apb_hz as int, rate);
    let src = apb_hz as int / interval;
    assert(0 <= src <= apb_hz) by (nonlinear_arith)
        requires
            interval >= 1,
            apb_hz >= 0,
            src == apb_hz as int / interval,
    ;
    law_divider_exists(src as u32, rate as u32, MAX_FRACT);
}

/// The settings give the wanted frequency, up to rounding: the APB clock runs
/// `interval * (integer + numerator / denominator)` times per trigger. With one trigger per
/// conversion, or two with alternating channels, so many times the rate of triggers misses the
/// APB frequency by at most `interval * (1 + rate / 63)`. No product of the divider search may
/// saturate.
pub proof fn law_planned_rate(apb_hz: u32, freq_hz: u32, is_alternate: bool)
    requires
        is_supported(apb_hz as int, freq_hz as int, is_alternate),
        ({
            let rate = if is_alternate {
                2 * freq_hz
            } else {
                freq_hz as int
            };
            let plan = clock_plan(apb_hz as int, freq_hz as int, is_alternate);
            let rest = (apb_hz as int / plan.interval as int) % rate;
            2 * (63 * (rate - rest)) < rate || 63 * rest + rate / 2 <= 0xffff_ffff
        }),
    ensures
        ({
            let rate = if is_alternate {
                2 * freq_hz
            } else {
                freq_hz as int
            };
            let plan = clock_plan(apb_hz as int, freq_hz as int, is_alternate);
            let den = plan.div.denominator as int;
            let ticks = plan.interval * (plan.div.integer * den + plan.div.numerator);
            63 * abs(rate * ticks - apb_hz * den) <= plan.interval * ((rate + 63) * den)
        }),
{
    law_trigger_rate(freq_hz);
    law_supported_frequencies(apb_hz, freq_hz, is_alternate);
    law_plan_fits_registers(apb_hz, freq_hz, is_alternate);
    lemma_divider_in_range(apb_hz as int, trigger_freq(freq_hz as int, is_alternate));
    lemma_planned_rate(apb_hz, freq_hz, is_alternate);
}

/// For every rate of triggers up to `u32::MAX / 64`, and so for every one that an APB clock of up
/// to 134 MHz supports, the settings give the wanted frequency up to rounding.
pub proof fn law_planned_frequency(apb_hz: u32, freq_hz: u32)
    requires
        0 < freq_hz,
        2 * freq_hz <= apb_hz < 256 * 4095 * freq_hz,
        64 * freq_hz <= 0xffff_ffff,
    ensures
        ({
            let plan = clock_plan(apb_hz as int, freq_hz as int, false);
            let den = plan.div.denominator as int;
            let ticks = plan.interval * (plan.div.integer * den + plan.div.numerator);
            63 * abs(freq_hz * ticks - apb_hz * den) <= plan.interval * ((freq_hz + 63) * den)
        }),
{
    law_supported_frequencies(apb_hz, freq_hz, false);
    law_planned_rate(apb_hz, freq_hz, false);
}

} // verus!
