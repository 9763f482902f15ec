use creatures::amorphous_mesh_creator::{
    blob_sample_points, cos_of_step, create_amorphous_mesh, radius_under_noise, sin_of_step,
    smooth_points, NUM_POINTS,
};
use creatures::geometry::{FinePoint, Point};
use creatures::noise_field::noise_sample;

const FINE: i128 = 1_000_000_000_000_000;

fn p(x: i32, y: i32) -> Point {
    Point::new(x, y)
}

fn fine(x: i128, y: i128) -> FinePoint {
    FinePoint { x: x * FINE, y: y * FINE }
}

/// The polygon by the exact formula, in whole units.
fn exact_polygon(size: f64, noise: &[f64], closeness: f64) -> Vec<(f64, f64)> {
    let base = size / 2.0;
    let raw: Vec<(f64, f64)> = (0..20)
        .map(|i| {
            let angle = i as f64 * std::f64::consts::PI / 10.0;
            let n = if i < noise.len() { noise[i] } else { 0.0 };
            let radius = (base + n * base * closeness).max(0.4 * base);
            (radius * angle.cos(), radius * angle.sin())
        })
        .collect();
    (0..20)
        .map(|i| {
            let (a, b, c) = (raw[(i + 19) % 20], raw[i], raw[(i + 1) % 20]);
            ((a.0 + b.0 + c.0) / 3.0, (a.1 + b.1 + c.1) / 3.0)
        })
        .collect()
}

#[test]
fn blob_has_twenty_vertices() {
    assert_eq!(NUM_POINTS, 20);
    assert_eq!(create_amorphous_mesh(100_000, &vec![], 0).len(), 20);
    assert_eq!(create_amorphous_mesh(0, &vec![1000; 3], 1000).len(), 20);
    assert_eq!(create_amorphous_mesh(1_000_000_000, &vec![-1000; 40], 1000).len(), 20);
    assert_eq!(create_amorphous_mesh(i32::MAX, &vec![1000; 20], 1000).len(), 20);
}

#[test]
fn radius_never_falls_below_two_fifths_of_the_base() {
    for size in [0, 1, 7, 100_000, 999_999, i32::MAX] {
        let least = size as i64 * 200;
        for closeness in [0, 1, 333, 999, 1000] {
            for n in [-1000, -999, -500, -1, 0, 1, 500, 1000] {
                let r = radius_under_noise(size, n, closeness);
                assert!(r >= least);
                assert!(r <= size as i64 * 1000);
            }
        }
    }
}

#[test]
fn radius_follows_the_noise() {
    assert_eq!(radius_under_noise(100_000, -1000, 1000), 20_000_000);
    assert_eq!(radius_under_noise(100_000, 500, 500), 62_500_000);
    assert_eq!(radius_under_noise(100_000, -1000, 500), 25_000_000);
    assert_eq!(radius_under_noise(100_000, 1000, 1000), 100_000_000);
    assert_eq!(radius_under_noise(100_000, 0, 1000), 50_000_000);
    assert_eq!(radius_under_noise(100_000, 1000, 0), 50_000_000);
    assert_eq!(radius_under_noise(101, -7, 333), 50_382);
    assert_eq!(radius_under_noise(1, 1, 1), 500);
    assert_eq!(radius_under_noise(3, -999, 999), 600);
}

#[test]
fn directions_are_tabulated_for_a_full_turn() {
    let cos: Vec<i64> = (0..20).map(cos_of_step).collect();
    let sin: Vec<i64> = (0..20).map(sin_of_step).collect();
    assert_eq!(
        &cos[0..6],
        &[
            1_000_000_000_000,
            951_056_516_295,
            809_016_994_375,
            587_785_252_292,
            309_016_994_375,
            0
        ]
    );
    for i in 0..20 {
        let angle = i as f64 * std::f64::consts::PI / 10.0;
        assert!((cos[i] as f64 - angle.cos() * 1e12).abs() <= 0.51);
        assert!((sin[i] as f64 - angle.sin() * 1e12).abs() <= 0.51);
        assert_eq!(cos[(i + 10) % 20], -cos[i]);
        assert_eq!(sin[i], cos[(i + 15) % 20]);
        let norm = cos[i] as i128 * cos[i] as i128 + sin[i] as i128 * sin[i] as i128;
        assert!((norm - 1_000_000_000_000_000_000_000_000).abs() <= 1_000_000_000_000);
    }
}

#[test]
fn smoothing_takes_the_mean_of_three_neighbours() {
    let points = vec![fine(0, 0), fine(30, 60), fine(90, -90), fine(-1, 7)];
    assert_eq!(smooth_points(&points), vec![p(10, 22), p(40, -10), p(40, -8), p(30, -28)]);
}

#[test]
fn smoothing_rounds_the_mean_to_the_nearest() {
    let points = vec![fine(1, -1), fine(1, -1), fine(0, 0)];
    assert_eq!(smooth_points(&points), vec![p(1, -1), p(1, -1), p(1, -1)]);
    let halves = vec![FinePoint { x: FINE / 2, y: -FINE / 2 }; 3];
    assert_eq!(smooth_points(&halves), vec![p(1, 0); 3]);
    let below = vec![FinePoint { x: FINE / 2 - 1, y: -FINE / 2 - 1 }; 3];
    assert_eq!(smooth_points(&below), vec![p(0, -1); 3]);
}

#[test]
fn smoothing_of_short_outlines() {
    assert_eq!(smooth_points(&vec![]), vec![]);
    assert_eq!(smooth_points(&vec![fine(5, -5)]), vec![p(5, -5)]);
    assert_eq!(smooth_points(&vec![fine(0, 0), fine(9, 3)]), vec![p(6, 2), p(3, 1)]);
    let far = vec![fine(i32::MAX as i128, -(i32::MAX as i128)); 3];
    assert_eq!(smooth_points(&far), vec![p(i32::MAX, -i32::MAX); 3]);
}

#[test]
fn every_smoothed_vertex_is_the_mean_of_its_neighbourhood() {
    let noise: Vec<i32> = (0..20).map(|i| (i * 137 % 2001) - 1000).collect();
    let size = 100_000;
    let raw: Vec<FinePoint> = (0..20usize)
        .map(|i| {
            let r = radius_under_noise(size, noise_sample(&noise, i), 700) as i128;
            FinePoint { x: r * cos_of_step(i) as i128, y: r * sin_of_step(i) as i128 }
        })
        .collect();
    let polygon = create_amorphous_mesh(size, &noise, 700);
    assert_eq!(polygon, smooth_points(&raw));
    for i in 0..20 {
        let prev = raw[(i + 19) % 20];
        let next = raw[(i + 1) % 20];
        let sum_x = prev.x + raw[i].x + next.x;
        let sum_y = prev.y + raw[i].y + next.y;
        assert!((2 * (3 * FINE * polygon[i].x as i128) - 2 * sum_x).abs() <= 3 * FINE);
        assert!((2 * (3 * FINE * polygon[i].y as i128) - 2 * sum_y).abs() <= 3 * FINE);
    }
}

#[test]
fn blob_without_amplitude_is_the_regular_outline() {
    let expected = vec![
        p(48369, 0),
        p(46001, 14947),
        p(39131, 28430),
        p(28430, 39131),
        p(14947, 46001),
        p(0, 48369),
        p(-14947, 46001),
        p(-28430, 39131),
        p(-39131, 28430),
        p(-46001, 14947),
        p(-48369, 0),
        p(-46001, -14947),
        p(-39131, -28430),
        p(-28430, -39131),
        p(-14947, -46001),
        p(0, -48369),
        p(14947, -46001),
        p(28430, -39131),
        p(39131, -28430),
        p(46001, -14947),
    ];
    assert_eq!(create_amorphous_mesh(100_000, &vec![], 10), expected);
    assert_eq!(create_amorphous_mesh(100_000, &vec![0; 20], 1000), expected);
    assert_eq!(create_amorphous_mesh(100_000, &vec![777; 20], 0), expected);
    let radius = 50.0 * (1.0 + 2.0 * (std::f64::consts::PI / 10.0).cos()) / 3.0;
    for (i, v) in expected.iter().enumerate() {
        let angle = i as f64 * std::f64::consts::PI / 10.0;
        assert!((v.x as f64 / 1000.0 - radius * angle.cos()).abs() < 0.001);
        assert!((v.y as f64 / 1000.0 - radius * angle.sin()).abs() < 0.001);
    }
}

#[test]
fn blob_is_within_a_thousandth_of_the_exact_polygon() {
    for size in [1, 7, 100_000, 999_999, 123_456_789, i32::MAX] {
        for closeness in [0, 1, 10, 333, 947, 1000] {
            for seed in 0..20 {
                let noise: Vec<i32> =
                    (0..20).map(|i| ((i * 7919 + seed * 104_729) % 2001) - 1000).collect();
                let exact_noise: Vec<f64> = noise.iter().map(|n| *n as f64 / 1000.0).collect();
                let exact =
                    exact_polygon(size as f64 / 1000.0, &exact_noise, closeness as f64 / 1000.0);
                let polygon = create_amorphous_mesh(size, &noise, closeness);
                for i in 0..20 {
                    assert!((polygon[i].x as f64 / 1000.0 - exact[i].0).abs() < 0.001);
                    assert!((polygon[i].y as f64 / 1000.0 - exact[i].1).abs() < 0.001);
                }
            }
        }
    }
}

#[test]
fn blob_under_alternating_noise() {
    let noise: Vec<i32> = (0..20).map(|i| if i % 2 == 0 { 1000 } else { -1000 }).collect();
    let polygon = create_amorphous_mesh(100_000, &noise, 1000);
    assert_eq!(polygon[0], p(46014, 0));
    assert_eq!(polygon[1], p(66641, 21653));
    assert_eq!(polygon[5], p(0, 70070));
    assert_eq!(polygon[10], p(-46014, 0));
    assert_eq!(polygon[15], p(0, -70070));
    assert_eq!(polygon[19], p(66641, -21653));
}

#[test]
fn blob_is_the_same_for_the_same_inputs() {
    let noise: Vec<i32> = (0..20).map(|i| 50 * i - 400).collect();
    assert_eq!(
        create_amorphous_mesh(77_000, &noise, 420),
        create_amorphous_mesh(77_000, &noise, 420)
    );
}

#[test]
fn samples_out_of_range_are_limited_and_missing_ones_are_zero() {
    let noise = vec![5000, -5000, 1000, -1000];
    assert_eq!(noise_sample(&noise, 0), 1000);
    assert_eq!(noise_sample(&noise, 1), -1000);
    assert_eq!(noise_sample(&noise, 2), 1000);
    assert_eq!(noise_sample(&noise, 3), -1000);
    assert_eq!(noise_sample(&noise, 4), 0);
    assert_eq!(noise_sample(&vec![i32::MIN, i32::MAX, 17], 2), 17);
    let limited = vec![1000, -1000, 1000, -1000];
    assert_eq!(
        create_amorphous_mesh(100_000, &noise, 800),
        create_amorphous_mesh(100_000, &limited, 800)
    );
}

#[test]
fn noise_is_sampled_on_a_circle_that_drifts_with_time() {
    let far = blob_sample_points(1000, 0);
    assert_eq!(far.len(), 20);
    assert_eq!(far[0], p(500, 200));
    assert_eq!(far[1], p(485, 293));
    assert_eq!(far[5], p(200, 500));
    assert_eq!(far[10], p(-100, 200));
    assert_eq!(far[16], p(293, -85));
    let near = blob_sample_points(2500, 1000);
    assert_eq!(near[0], p(2100, 1500));
    assert_eq!(near[3], p(1853, 1985));
    assert_eq!(near[7], p(1147, 1985));
    assert_eq!(blob_sample_points(12_345, 500)[1], p(5366, 5077));
    assert_eq!(blob_sample_points(i32::MAX, 1000).len(), 20);
    assert_eq!(blob_sample_points(i32::MIN, 1000).len(), 20);
    for (time, closeness) in [(0, 0), (1000, 0), (2500, 1000), (12_345, 500), (1_999_999_999, 947)] {
        let points = blob_sample_points(time, closeness);
        let c = closeness as f64 / 1000.0;
        let drift = time as f64 / 1000.0 * (0.2 + 0.4 * c);
        for i in 0..20 {
            let angle = i as f64 * std::f64::consts::PI / 10.0;
            let x = angle.cos() * (0.3 + 0.3 * c) + drift;
            let y = angle.sin() * (0.3 + 0.3 * c) + drift;
            assert!((points[i].x as f64 / 1000.0 - x).abs() < 0.001);
            assert!((points[i].y as f64 / 1000.0 - y).abs() < 0.001);
        }
    }
}

#[test]
fn smoothing_pulls_vertices_inward_by_less_than_a_twentieth() {
    let size = 100_000;
    let least: i128 = 20_000_000;
    let lowest = create_amorphous_mesh(size, &vec![-1000; 20], 1000);
    assert_eq!(lowest[0], p(19_347, 0));
    for seed in 0..50 {
        let noise: Vec<i32> = (0..20).map(|i| ((i * 7919 + seed * 104_729) % 2001) - 1000).collect();
        for closeness in [0, 500, 1000] {
            let polygon = create_amorphous_mesh(size, &noise, closeness);
            for (i, v) in polygon.iter().enumerate() {
                let outward =
                    cos_of_step(i) as i128 * v.x as i128 + sin_of_step(i) as i128 * v.y as i128;
                let bound = 950_000_000 * least - 1_000_000_000_000;
                assert!(outward >= bound);
                let squared = v.x as i128 * v.x as i128 + v.y as i128 * v.y as i128;
                assert!(
                    1_000_000_000_001_000_000_000_000 * squared >= bound * bound
                );
            }
        }
    }
}
