use esp_dac::clkdiv::{calc_clk_div_frac_accurate, sub_abs, ClkDiv};
use esp_dac::clock_plan::{plan_clock, ClockPlan};

const APB_HZ: u32 = 80_000_000;

fn div(integer: u32, denominator: u32, numerator: u32) -> ClkDiv {
    ClkDiv { integer, denominator, numerator }
}

fn search(src: u32, exp: u32) -> Option<ClkDiv> {
    calc_clk_div_frac_accurate(src, exp, 1, 257, 64)
}

#[test]
fn distance_of_two_numbers() {
    assert_eq!(sub_abs(7, 3), 4);
    assert_eq!(sub_abs(3, 7), 4);
    assert_eq!(sub_abs(5, 5), 0);
    assert_eq!(sub_abs(0, u32::MAX), u32::MAX);
}

#[test]
fn whole_divider() {
    assert_eq!(search(1_000_000, 250_000), Some(div(4, 2, 0)));
    assert_eq!(search(5, 5), Some(div(1, 2, 0)));
}

#[test]
fn exact_fraction() {
    assert_eq!(search(1_000_000, 300_000), Some(div(3, 3, 1)));
    assert_eq!(search(19_536, 77), Some(div(253, 7, 5)));
}

#[test]
fn first_of_equal_denominators_is_taken() {
    assert_eq!(search(50, 20), Some(div(2, 2, 1)));
    assert_eq!(search(88_202, 44_100), Some(div(2, 2, 0)));
}

#[test]
fn large_rest_is_carried() {
    // The decimal is carried where it is greater than 1 - 1 / 126.
    assert_eq!(search(1_999_999, 1_000_000), Some(div(2, 2, 0)));
    assert_eq!(search(1_992_064, 1_000_000), Some(div(2, 2, 0)));
    assert_eq!(search(1_992_063, 1_000_000), Some(div(1, 63, 62)));
    // The decimal is 1 - 1 / 126.
    assert_eq!(search(251, 126), Some(div(1, 63, 62)));
    assert_eq!(search(253, 127), Some(div(2, 2, 0)));
}

#[test]
fn largest_fraction_is_not_carried() {
    assert_eq!(search(692, 63), Some(div(10, 63, 62)));
    assert_eq!(calc_clk_div_frac_accurate(5, 3, 1, 257, 4), Some(div(1, 3, 2)));
}

#[test]
fn fraction_stays_below_one() {
    // The decimal 0.99 is nearer to 2 / 2 than to 1 / 2, but one is no fraction.
    assert_eq!(search(1_990, 1_000), Some(div(1, 63, 62)));
    for src in 1_000..3_000 {
        let d = search(src, 1_000).unwrap();
        assert!(d.numerator < d.denominator);
    }
}

#[test]
fn fractions_are_in_lowest_terms() {
    for src in 1_000..3_000 {
        let d = search(src, 1_000).unwrap();
        for factor in 2..64 {
            if d.numerator % factor == 0 && d.denominator % factor == 0 {
                assert_eq!((d.denominator, d.numerator), (2, 0));
            }
        }
    }
}

#[test]
fn carried_where_the_next_integer_is_nearer() {
    let exp = 1_009u64;
    for rest in 1..exp {
        let d = search((3 * exp + rest) as u32, exp as u32).unwrap();
        let carried = d.integer == 4;
        let mut nearer = true;
        for a in 2..64u64 {
            for n in 0..a {
                if (exp * n).abs_diff(rest * a) <= a * (exp - rest) {
                    nearer = false;
                }
            }
        }
        assert_eq!(carried, nearer);
    }
}

#[test]
fn products_saturate() {
    assert_eq!(search(4_000_000_000, 3_000_000_000), Some(div(1, 3, 1)));
    // 6 / 15 would be exact with the denominator 5, but the products do not fit.
    assert_eq!(search(4_200_000_000, 3_000_000_000), Some(div(1, 2, 1)));
    // With 9 / 10 left, 2 / 2 comes closest of what fits.
    assert_eq!(search(1_900_000_000, 1_000_000_000), Some(div(1, 2, 2)));
    assert_eq!(
        plan_clock(2_900_000_000, 1_000_000_000, false),
        Some(ClockPlan { interval: 1, div: div(2, 2, 2) })
    );
}

#[test]
fn numerators_are_rounded_away_from_one() {
    let mut exp: u32 = 100;
    while exp < 2_000_000_000 {
        let threshold = exp - exp / 63 * 2;
        for i in 1..50 {
            let rest = (threshold as u64 * i / 50) as u32;
            if rest == 0 {
                continue;
            }
            let (mut least, mut den, mut num) = (u32::MAX, 2, 0);
            for a in 2..64u32 {
                let b = a.saturating_mul(rest).saturating_add(exp / 2) / exp;
                let s = exp.saturating_mul(b).abs_diff(rest.saturating_mul(a));
                if s < least {
                    (least, den, num) = (s, a, b);
                }
            }
            assert_eq!(search(exp + rest, exp), Some(div(1, den, num)));
        }
        exp = exp / 5 * 6 + 7;
    }
}

#[test]
fn no_divider() {
    assert_eq!(search(1_000, 0), None);
    assert_eq!(calc_clk_div_frac_accurate(1_000, 10, 1, 257, 2), None);
    assert_eq!(search(10, 1_000), None);
    assert_eq!(calc_clk_div_frac_accurate(10, 1_000, 0, 257, 64), None);
    assert_eq!(calc_clk_div_frac_accurate(30, 10, 4, 257, 64), None);
    assert_eq!(calc_clk_div_frac_accurate(30, 10, 3, 4, 64), Some(div(3, 2, 0)));
    assert_eq!(calc_clk_div_frac_accurate(40, 10, 3, 4, 64), None);
    assert_eq!(search(256, 1), Some(div(256, 2, 0)));
    assert_eq!(search(257, 1), None);
}

#[test]
fn no_other_divider_is_closer() {
    let (src, exp) = (1_234_567u64, 100_003u64);
    let d = search(src as u32, exp as u32).unwrap();
    let total = (d.integer * d.denominator + d.numerator) as u64;
    let error = (exp * total).abs_diff(src * d.denominator as u64);
    assert!(2 * error <= exp);
    for a in 2..64u64 {
        for t in 0..(src / exp + 1) * a {
            assert!(error <= (exp * t).abs_diff(src * a));
        }
    }
}

#[test]
fn accuracy_of_the_search() {
    let mut exp: u64 = 1_000;
    while exp < 67_000_000 {
        let src = 3 * exp + exp / 7 + 5;
        let d = search(src as u32, exp as u32).unwrap();
        let total = (d.integer * d.denominator + d.numerator) as u64;
        let error = (exp * total).abs_diff(src * d.denominator as u64);
        assert!(error * 63 < 2 * exp);
        assert!(error * 63 < exp * d.denominator as u64);
        assert!(d.numerator < d.denominator);
        assert!(2 <= d.denominator && d.denominator < 64);
        exp = exp * 13 / 11 + 1;
    }
}

#[test]
fn supported_frequencies() {
    assert_eq!(plan_clock(APB_HZ, 0, false), None);
    assert_eq!(plan_clock(APB_HZ, 76, false), None);
    assert_eq!(
        plan_clock(APB_HZ, 77, false),
        Some(ClockPlan { interval: 4095, div: div(253, 7, 5) })
    );
    assert_eq!(
        plan_clock(APB_HZ, 40_000_000, false),
        Some(ClockPlan { interval: 1, div: div(2, 2, 0) })
    );
    assert_eq!(plan_clock(APB_HZ, 40_000_001, false), None);
    assert_eq!(plan_clock(APB_HZ, u32::MAX, false), None);
}

#[test]
fn alternating_channels_double_the_rate() {
    assert_eq!(plan_clock(APB_HZ, 20_000_000, true), plan_clock(APB_HZ, 40_000_000, false));
    assert_eq!(plan_clock(APB_HZ, 20_000_001, true), None);
    assert_eq!(plan_clock(APB_HZ, u32::MAX, true), None);
}

#[test]
fn intervals() {
    // 255 ticks per trigger
    assert_eq!(
        plan_clock(255_000, 1_000, false),
        Some(ClockPlan { interval: 1, div: div(255, 2, 0) })
    );
    // 256
    assert_eq!(
        plan_clock(256_000, 1_000, false),
        Some(ClockPlan { interval: 128, div: div(2, 2, 0) })
    );
    // 8191
    assert_eq!(plan_clock(8_191_000, 1_000, false).map(|p| p.interval), Some(4095));
    // 8192
    assert_eq!(plan_clock(8_192_000, 1_000, false).map(|p| p.interval), Some(4095));
    // 1048319 and 1048320
    assert_eq!(plan_clock(1_048_319_000, 1_000, false).map(|p| p.div.integer), Some(256));
    assert_eq!(plan_clock(1_048_320_000, 1_000, false), None);
}

#[test]
fn audio_rate() {
    assert_eq!(
        plan_clock(APB_HZ, 44_100, false),
        Some(ClockPlan { interval: 907, div: div(2, 2, 0) })
    );
}

#[test]
fn planned_rates_are_close() {
    let mut freq: u64 = 77;
    while freq <= 40_000_000 {
        let plan = plan_clock(APB_HZ, freq as u32, false).unwrap();
        assert!(1 <= plan.interval && plan.interval < 0x1000);
        assert!(2 <= plan.div.integer && plan.div.integer <= 0x100);
        assert!(plan.div.denominator < 0x40);
        let den = plan.div.denominator as u64;
        let total = plan.div.integer as u64 * den + plan.div.numerator as u64;
        let interval = plan.interval as u64;
        let miss = (freq * interval * total).abs_diff(APB_HZ as u64 * den);
        assert!(63 * miss <= interval * (freq + 63) * den);
        freq = freq * 101 / 97 + 1;
    }
}
