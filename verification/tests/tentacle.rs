use creatures::geometry::{displace, distance_to, Color, Point};
use creatures::tentacle::{step_toward, Tentacle, LENGTH_TOLERANCE, MIN_TENTACLE_LENGTH};

fn p(x: i32, y: i32) -> Point {
    Point::new(x, y)
}

fn red() -> Color {
    Color::new(1000, 0, 0, 1000)
}

fn tentacle_of_length(base: Point, length: i32) -> Tentacle {
    let mut tentacle = Tentacle::new(base, 5000, red(), 0);
    tentacle.current_tentacle_length = length;
    tentacle
}

#[test]
fn example_no_drift_at_equilibrium() {
    let mut tentacle = tentacle_of_length(p(0, 0), 10_000);
    for tick in 0..50 {
        let desired = tentacle.desired_length(1000, p(10_000, 0), true, 800_000);
        assert_eq!(desired, 10_000);
        tentacle.update(p(10_000, 0), 250_000, 1000, tick, red(), true, 800_000);
        assert_eq!(tentacle.current_tentacle_length, 10_000);
    }
}

#[test]
fn new_tentacle_has_unit_length_and_no_points() {
    let tentacle = Tentacle::new(p(3, 4), 5000, red(), 2500);
    assert_eq!(tentacle.base_position, p(3, 4));
    assert_eq!(tentacle.thickness, 5000);
    assert_eq!(tentacle.color, red());
    assert_eq!(tentacle.time, 2500);
    assert!(tentacle.points.is_empty());
    assert!(!tentacle.in_proximity);
    assert_eq!(tentacle.current_tentacle_length, MIN_TENTACLE_LENGTH);
    assert_eq!(tentacle.target_position, p(3, 4));
}

#[test]
fn length_grows_by_a_twentieth_of_the_gap() {
    let mut length = 1000;
    let mut seen = Vec::new();
    for _ in 0..10 {
        length = step_toward(length, 10_000);
        seen.push(length);
    }
    assert_eq!(seen, vec![1450, 1878, 2284, 2670, 3037, 3385, 3716, 4030, 4329, 4613]);
}

#[test]
fn length_decays_when_the_agent_is_far() {
    let mut tentacle = tentacle_of_length(p(0, 0), 10_000);
    let mut seen = Vec::new();
    for tick in 0..6 {
        tentacle.update(p(500_000, 0), 250_000, 1000, tick, red(), false, 800_000);
        seen.push(tentacle.current_tentacle_length);
    }
    assert_eq!(seen, vec![9975, 9950, 9925, 9900, 9875, 9850]);
}

#[test]
fn length_is_never_negative() {
    let mut tentacle = tentacle_of_length(p(0, 0), 1_000_000_000);
    for tick in 0..20_000 {
        let near = tick % 7 == 0 && tick < 100;
        tentacle.update(p(0, 300_000), 250_000, 0, 0, red(), near, 800_000);
        assert!(tentacle.current_tentacle_length >= 0);
    }
    let mut short = tentacle_of_length(p(0, 0), 0);
    short.update(p(0, 300_000), 250_000, 0, 0, red(), false, 800_000);
    assert_eq!(short.current_tentacle_length, 0);
    short.update(p(0, 300_000), 250_000, 0, 0, red(), true, 800_000);
    assert_eq!(short.current_tentacle_length, 50);
}

#[test]
fn gap_strictly_shrinks_until_within_tolerance() {
    let desired = 10_000;
    for start in [1000, 25_000] {
        let mut length: i32 = start;
        let mut ticks = 0;
        while (length - desired).abs() >= LENGTH_TOLERANCE {
            let next = step_toward(length, desired);
            assert!((next - desired).abs() < (length - desired).abs());
            assert!((next - length).abs() * 20 <= (length - desired).abs() + 10);
            length = next;
            ticks += 1;
        }
        assert!(ticks > 0);
        assert_eq!(step_toward(length, desired), length);
    }
    let mut length = 1000;
    let mut ticks = 0;
    while (length - desired).abs() >= LENGTH_TOLERANCE {
        length = step_toward(length, desired);
        ticks += 1;
    }
    assert_eq!((ticks, length), (131, 9991));
}

#[test]
fn desired_length_in_proximity() {
    let tentacle = tentacle_of_length(p(0, 0), 5000);
    assert_eq!(tentacle.desired_length(500, p(300_000, 0), true, 800_000), 150_000);
    assert_eq!(tentacle.desired_length(1000, p(0, 900_000), true, 800_000), 800_000);
    assert_eq!(tentacle.desired_length(1000, p(0, 0), true, 800_000), 1000);
    assert_eq!(tentacle.desired_length(0, p(300_000, 0), true, 800_000), 1000);
    assert_eq!(tentacle.desired_length(1, p(300_000, 0), true, 800_000), 1000);
    assert_eq!(tentacle.desired_length(333, p(-10_000, 0), true, 800_000), 3330);
    assert_eq!(tentacle.desired_length(333, p(7071, 7071), true, 800_000), 3330);
    assert_eq!(tentacle.desired_length(1000, p(1000, 1000), true, 800_000), 1414);
    assert_eq!(
        tentacle.desired_length(1000, p(i32::MAX, i32::MIN), true, 1_000_000_000),
        1_000_000_000
    );
    assert_eq!(tentacle.desired_length(1000, p(i32::MAX, i32::MIN), true, 1000), 1000);
}

#[test]
fn desired_length_when_far_is_a_decay() {
    let tentacle = tentacle_of_length(p(0, 0), 5000);
    assert_eq!(tentacle.desired_length(1000, p(300_000, 0), false, 800_000), 4750);
    assert_eq!(tentacle_of_length(p(0, 0), 1).desired_length(1000, p(0, 0), false, 800_000), 1);
    assert_eq!(tentacle_of_length(p(0, 0), 10).desired_length(1000, p(0, 0), false, 800_000), 10);
    assert_eq!(tentacle_of_length(p(0, 0), 11).desired_length(1000, p(0, 0), false, 800_000), 10);
    assert_eq!(
        tentacle_of_length(p(0, 0), 1_000_000_000).desired_length(0, p(0, 0), false, 1000),
        950_000_000
    );
}

#[test]
fn update_takes_the_target() {
    let mut tentacle = tentacle_of_length(p(1000, 1000), 3000);
    tentacle.points.push(p(9, 9));
    tentacle.update(p(4000, 5000), 250_000, 1000, 77, Color::new(1, 2, 3, 4), true, 800_000);
    assert_eq!(tentacle.target_position, p(4000, 5000));
    assert_eq!(tentacle.time, 77);
    assert_eq!(tentacle.color, Color::new(1, 2, 3, 4));
    assert!(tentacle.in_proximity);
    assert!(tentacle.points.is_empty());
    assert_eq!(tentacle.base_position, p(1000, 1000));
    assert_eq!(tentacle.thickness, 5000);
    assert_eq!(tentacle.current_tentacle_length, 3100);
}

#[test]
fn vertices_number_the_length_rounded_up() {
    for (length, count) in [(0, 0), (1, 1), (999, 1), (1000, 1), (1001, 2), (3500, 4), (10_000, 10)]
    {
        let mut tentacle = tentacle_of_length(p(0, 0), length);
        assert_eq!(tentacle.vertex_count(), count);
        assert_eq!(tentacle.noise_phases().len(), count);
        tentacle.reshape(&vec![]);
        assert_eq!(tentacle.points.len(), count);
    }
    assert_eq!(tentacle_of_length(p(0, 0), 1_000_000_000).vertex_count(), 1_000_000);
}

#[test]
fn noise_is_sampled_along_the_tentacle() {
    let mut tentacle = tentacle_of_length(p(0, 0), 3500);
    tentacle.time = 2500;
    assert_eq!(
        tentacle.noise_phases(),
        vec![p(2500, 0), p(3071, 0), p(3643, 0), p(4214, 0)]
    );
    tentacle.time = 2_000_000_000;
    assert_eq!(tentacle.noise_phases()[3], p(2_000_001_714, 0));
}

#[test]
fn polyline_reaches_for_the_target_and_sways_sideways() {
    let mut tentacle = tentacle_of_length(p(100_000, 200_000), 3500);
    tentacle.target_position = p(200_000, 200_000);
    tentacle.reshape(&vec![0, 1000, -1000, 500]);
    assert_eq!(
        tentacle.points,
        vec![
            p(100_000, 200_000),
            p(101_000, 223_000),
            p(102_000, 177_000),
            p(103_000, 211_500)
        ]
    );
    tentacle.target_position = p(103_000, 204_000);
    tentacle.reshape(&vec![1000, 1000, 7]);
    assert_eq!(
        tentacle.points,
        vec![
            p(81_600, 213_800),
            p(82_200, 214_600),
            p(101_071, 201_697),
            p(101_800, 202_400)
        ]
    );
    assert_eq!(tentacle.current_tentacle_length, 3500);
    assert_eq!(tentacle.base_position, p(100_000, 200_000));
}

#[test]
fn target_on_the_base_collapses_the_polyline() {
    let mut tentacle = tentacle_of_length(p(5000, -5000), 4000);
    tentacle.update(p(5000, -5000), 250_000, 1000, 0, red(), true, 800_000);
    assert_eq!(tentacle.target_position, p(5000, -5000));
    assert_eq!(tentacle.current_tentacle_length, 3850);
    tentacle.reshape(&vec![1000, -1000, 300, 5]);
    assert_eq!(tentacle.points, vec![p(5000, -5000); 4]);
}

#[test]
fn polyline_at_the_limits_of_the_coordinates() {
    let mut tentacle = tentacle_of_length(p(1_000_000_000, -1_000_000_000), 1_000_000_000);
    tentacle.target_position = p(1_000_000_001, -1_000_000_000);
    tentacle.reshape(&vec![1000; 1_000_000]);
    assert_eq!(tentacle.points.len(), 1_000_000);
    assert_eq!(tentacle.points[999_999], p(1_999_999_000, -999_977_000));
    tentacle.target_position = p(i32::MAX, i32::MIN);
    tentacle.reshape(&vec![1000; 1_000_000]);
    assert_eq!(tentacle.points[999_999], p(1_707_122_337, -1_707_089_811));
}

#[test]
fn setters_change_one_field() {
    let mut tentacle = tentacle_of_length(p(1, 2), 1234);
    tentacle.set_color(Color::new(5, 6, 7, 8));
    tentacle.set_thickness(42);
    assert_eq!(tentacle.color, Color::new(5, 6, 7, 8));
    assert_eq!(tentacle.thickness, 42);
    assert_eq!(tentacle.current_tentacle_length, 1234);
    assert_eq!(tentacle.base_position, p(1, 2));
}

#[test]
fn distances_of_points() {
    assert_eq!(distance_to(&p(0, 0), &p(3000, 4000)), 5000);
    assert_eq!(distance_to(&p(0, 0), &p(1000, 1000)), 1414);
    assert_eq!(distance_to(&p(7, 7), &p(7, 7)), 0);
    assert_eq!(distance_to(&p(i32::MIN, i32::MIN), &p(i32::MAX, i32::MAX)), 6_074_000_998);
}

#[test]
fn points_are_displaced_towards_a_target() {
    assert_eq!(displace(&p(0, 0), &p(3000, 4000), 5000, 0), p(3000, 4000));
    assert_eq!(displace(&p(0, 0), &p(3000, 4000), 10_000, 0), p(6000, 8000));
    assert_eq!(displace(&p(3000, 4000), &p(0, 0), 1000, 0), p(2400, 3200));
    assert_eq!(displace(&p(0, 0), &p(3000, 4000), 0, 1000), p(-800, 600));
    assert_eq!(displace(&p(0, 0), &p(3000, 4000), 0, -1000), p(800, -600));
    assert_eq!(displace(&p(0, 0), &p(1000, -1000), 1000, 0), p(707, -707));
    assert_eq!(displace(&p(7, 7), &p(7, 7), 5000, 300), p(7, 7));
    assert_eq!(displace(&p(0, 0), &p(0, -1), 1000, 0), p(0, -1000));
    assert_eq!(
        displace(&p(-1_000_000_000, 0), &p(i32::MAX, 0), 1_100_000_000, 0),
        p(100_000_000, 0)
    );
}

#[test]
fn tip_of_a_long_tentacle_is_within_a_thousandth() {
    for target in [p(1, 1), p(300_000, 1), p(123_456, -654_321), p(-7, 800_000), p(-1, 0)] {
        let norm = ((target.x as f64).powi(2) + (target.y as f64).powi(2)).sqrt();
        for reach in [1_000i64, 800_000, 1_000_000_000] {
            let tip = displace(&p(0, 0), &target, reach, 0);
            let x = target.x as f64 / norm * reach as f64;
            let y = target.y as f64 / norm * reach as f64;
            assert!((tip.x as f64 - x).abs() < 1.0);
            assert!((tip.y as f64 - y).abs() < 1.0);
        }
    }
}

#[test]
fn length_step_is_within_a_thousandth_of_a_twentieth_of_the_gap() {
    for (current, desired) in [(1000, 10_000), (10_000, 1000), (7, 5), (123_456, 654_321), (0, 9)] {
        let next = step_toward(current, desired);
        let exact = current as f64 + (desired - current) as f64 * 0.05;
        assert!((next as f64 - exact).abs() <= 0.5);
    }
    let tentacle = tentacle_of_length(p(0, 0), 123_457);
    let far = tentacle.desired_length(1000, p(0, 0), false, 800_000);
    assert!((far as f64 - 123_457.0 * 0.95).abs() <= 0.5);
    let near = tentacle.desired_length(947, p(123_456, -654_321), true, 800_000);
    let distance = (123_456.0f64.powi(2) + 654_321.0f64.powi(2)).sqrt();
    assert!((near as f64 - 0.947 * distance).abs() <= 0.51);
    let mut phased = tentacle_of_length(p(0, 0), 7321);
    phased.time = 5000;
    for (i, phase) in phased.noise_phases().iter().enumerate() {
        let exact = 5000.0 + i as f64 * 1000.0 / 7321.0 * 2000.0;
        assert!((phase.x as f64 - exact).abs() <= 0.5);
        assert_eq!(phase.y, 0);
    }
}
