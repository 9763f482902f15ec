use creatures::geometry::Color;
use creatures::utils::{
    get_dynamic_color, get_dynamic_color2, interpolate_colors, lerp, opaque, pulse_of, share,
    smootherstep, PROXIMITY_COLOR_CUTOFF, WHOLE,
};

fn rgb(color: Color) -> (i32, i32, i32) {
    (color.r, color.g, color.b)
}

/// The pulsing colour by the exact formula.
fn exact_color(sin: f64, closeness: f64, near: bool, cutoff: f64) -> (f64, f64, f64) {
    let check = 0.6 + closeness * 10.0;
    let green = (sin * 0.25 + 0.75) * 0.5 + 0.5;
    let mix = |a: (f64, f64, f64), b: (f64, f64, f64), t: f64| {
        let t = t.clamp(0.0, 1.0);
        (a.0 + (b.0 - a.0) * t, a.1 + (b.1 - a.1) * t, a.2 + (b.2 - a.2) * t)
    };
    if !near {
        mix((0.1, 0.1, 0.8), (1.0, green, 0.0), (cutoff - check) / 6.4)
    } else if check < cutoff {
        mix((0.1, 0.1, 0.8), (0.5, green, 0.9), (cutoff - check) / 6.4)
    } else {
        mix((0.0, 0.0, 0.7), (1.0, 0.3, 0.2), (check - cutoff) / 3.0)
    }
}

#[test]
fn lerp_runs_from_one_end_to_the_other() {
    assert_eq!(WHOLE, 1_000_000_000);
    assert_eq!(lerp(100, 1000, 0), 100);
    assert_eq!(lerp(100, 1000, WHOLE), 1000);
    assert_eq!(lerp(100, 1000, WHOLE / 2), 550);
    assert_eq!(lerp(800, 0, WHOLE / 4), 600);
    assert_eq!(lerp(0, 3, WHOLE / 3), 1);
}

#[test]
fn lerp_rounds_to_the_nearest() {
    assert_eq!(lerp(0, 1, WHOLE - 1), 1);
    assert_eq!(lerp(1, 0, 1), 1);
    assert_eq!(lerp(0, 1, WHOLE / 2), 1);
    assert_eq!(lerp(0, 1, WHOLE / 2 - 1), 0);
}

#[test]
fn lerp_limits_the_factor_to_the_interval_from_zero_to_one() {
    assert_eq!(lerp(100, 1000, -5), 100);
    assert_eq!(lerp(100, 1000, WHOLE + 200), 1000);
    assert_eq!(lerp(100, 1000, i64::MIN), 100);
    assert_eq!(lerp(100, 1000, i64::MAX), 1000);
    assert_eq!(lerp(i32::MIN, i32::MAX, WHOLE), i32::MAX);
    assert_eq!(lerp(i32::MAX, i32::MIN, WHOLE), i32::MIN);
    assert_eq!(lerp(i32::MIN, i32::MAX, WHOLE / 2), 0);
}

#[test]
fn shares_are_limited_factors() {
    assert_eq!(share(3200, 6400), WHOLE / 2);
    assert_eq!(share(1, 3), 333_333_333);
    assert_eq!(share(0, 6400), 0);
    assert_eq!(share(-1, 6400), 0);
    assert_eq!(share(6400, 6400), WHOLE);
    assert_eq!(share(6401, 6400), WHOLE);
    assert_eq!(share(i64::MAX, 1), WHOLE);
    assert_eq!(share(i64::MIN, i64::MAX), 0);
    assert_eq!(share(1, i64::MAX), 0);
}

#[test]
fn colors_are_interpolated_channel_by_channel() {
    assert_eq!(
        interpolate_colors((100_000, 100_000, 800_000), (1_000_000, 875_000, 0), WHOLE / 2),
        (550_000, 487_500, 400_000)
    );
    assert_eq!(interpolate_colors((1, 2, 3), (4, 5, 6), 0), (1, 2, 3));
    assert_eq!(interpolate_colors((1, 2, 3), (4, 5, 6), 2 * WHOLE), (4, 5, 6));
    assert_eq!(opaque((550_000, 487_500, 400_499)), Color::new(550, 488, 400, 1000));
}

#[test]
fn pulse_oscillates_between_three_quarters_and_one() {
    assert_eq!(pulse_of(0), 875_000);
    assert_eq!(pulse_of(1000), 1_000_000);
    assert_eq!(pulse_of(-1000), 750_000);
    assert_eq!(pulse_of(500), 937_500);
    assert_eq!(pulse_of(-333), 833_375);
    assert_eq!(pulse_of(i32::MAX), 1_000_000);
    assert_eq!(pulse_of(i32::MIN), 750_000);
    for s in -1000..=1000 {
        assert!((750_000..=1_000_000).contains(&pulse_of(s)));
    }
}

#[test]
fn far_creatures_fade_from_blue_to_pulsing_yellow() {
    assert_eq!(PROXIMITY_COLOR_CUTOFF, 7000);
    assert_eq!(rgb(get_dynamic_color(0, 0, false, 7000)), (1000, 875, 0));
    assert_eq!(rgb(get_dynamic_color(1000, 500, false, 7000)), (297, 297, 625));
    assert_eq!(rgb(get_dynamic_color(0, 1000, false, 7000)), (100, 100, 800));
}

#[test]
fn near_creatures_fade_towards_violet_below_the_cutoff() {
    assert_eq!(rgb(get_dynamic_color(-1000, 300, true, 7000)), (313, 445, 853));
    assert_eq!(rgb(get_dynamic_color(0, 0, true, 7000)), (500, 875, 900));
}

#[test]
fn very_near_creatures_fade_towards_red() {
    assert_eq!(rgb(get_dynamic_color(0, 640, true, 7000)), (0, 0, 700));
    assert_eq!(rgb(get_dynamic_color(0, 800, true, 7000)), (533, 160, 433));
    assert_eq!(rgb(get_dynamic_color(0, 1000, true, 7000)), (1000, 300, 200));
}

#[test]
fn cutoff_is_tunable() {
    assert_eq!(
        rgb(get_dynamic_color(0, 800, true, 10_000)),
        rgb(get_dynamic_color(0, 500, true, 7000))
    );
    assert_eq!(rgb(get_dynamic_color(0, 500, true, 7000)), (188, 270, 822));
    assert_eq!(rgb(get_dynamic_color(0, 1000, true, 15_000)), (375, 633, 869));
    assert_eq!(rgb(get_dynamic_color(0, 0, true, 600)), (0, 0, 700));
}

#[test]
fn dynamic_colors_are_within_a_thousandth_of_the_exact_ones() {
    for s in (-1000..=1000).step_by(37) {
        for nd in (0..=1000).step_by(13) {
            for near in [false, true] {
                for cutoff in [7000, 10_000, 15_000] {
                    let color = get_dynamic_color(s, nd, near, cutoff);
                    let exact = exact_color(
                        s as f64 / 1000.0,
                        nd as f64 / 1000.0,
                        near,
                        cutoff as f64 / 1000.0,
                    );
                    assert!((color.r as f64 / 1000.0 - exact.0).abs() < 0.001);
                    assert!((color.g as f64 / 1000.0 - exact.1).abs() < 0.001);
                    assert!((color.b as f64 / 1000.0 - exact.2).abs() < 0.001);
                }
            }
        }
    }
}

#[test]
fn dynamic_colors_are_opaque_and_in_gamut() {
    for nd in [i32::MIN, -1, 0, 1, 250, 639, 640, 641, 1000, 5000, i32::MAX] {
        for s in [i32::MIN, -1000, 0, 1000, i32::MAX] {
            for near in [false, true] {
                for cutoff in [i32::MIN, 0, 7000, 10_000, 15_000, i32::MAX] {
                    for c in [
                        get_dynamic_color(s, nd, near, cutoff),
                        get_dynamic_color2(s, nd, near, cutoff),
                    ] {
                        assert_eq!(c.a, 1000);
                        assert!((0..=1000).contains(&c.r));
                        assert!((0..=1000).contains(&c.g));
                        assert!((0..=1000).contains(&c.b));
                    }
                }
            }
        }
    }
}

#[test]
fn plain_colors_have_three_palettes() {
    assert_eq!(rgb(get_dynamic_color2(0, 500, false, 7000)), (1000, 1000, 0));
    assert_eq!(rgb(get_dynamic_color2(0, 0, true, 7000)), (1000, 1000, 0));
    assert_eq!(rgb(get_dynamic_color2(0, 320, true, 7000)), (950, 950, 0));
    assert_eq!(rgb(get_dynamic_color2(0, 640, true, 7000)), (1000, 0, 0));
    assert_eq!(rgb(get_dynamic_color2(0, 790, true, 7000)), (950, 450, 0));
    assert_eq!(rgb(get_dynamic_color2(0, 1000, true, 7000)), (900, 900, 0));
}

#[test]
fn smootherstep_values() {
    let values: Vec<i32> =
        [0, 100, 250, 500, 750, 900, 1000].iter().map(|x| smootherstep(0, 1000, *x)).collect();
    assert_eq!(values, vec![0, 9, 104, 500, 896, 991, 1000]);
    assert_eq!(smootherstep(200, 700, 450), 500);
    assert_eq!(smootherstep(-500, 500, 0), 500);
    for x in 0..=1000 {
        let t = x as f64 / 1000.0;
        let exact = t * t * t * (t * (t * 6.0 - 15.0) + 10.0);
        assert!((smootherstep(0, 1000, x) as f64 / 1000.0 - exact).abs() < 0.001);
    }
}

#[test]
fn smootherstep_is_flat_outside_the_edges_and_rises_between() {
    assert_eq!(smootherstep(200, 700, 200), 0);
    assert_eq!(smootherstep(200, 700, 199), 0);
    assert_eq!(smootherstep(200, 700, i32::MIN), 0);
    assert_eq!(smootherstep(200, 700, 700), 1000);
    assert_eq!(smootherstep(200, 700, i32::MAX), 1000);
    assert_eq!(smootherstep(i32::MIN, i32::MAX, 0), 500);
    let mut last = 0;
    for x in 0..=1000 {
        let s = smootherstep(0, 1000, x);
        assert!(s >= last && s <= 1000);
        last = s;
    }
}
