use creatures::collectible::Collectible;
use creatures::collectible_cluster_points::{get_cluster_points, ClusterPointCollection};
use creatures::collectible_placement::{
    candidate_position, decimal_string, generate_collectibles, is_clear, jitter_window, label_of,
    placement_step, PlacementError, PlacementStep, DEFAULT_MIN_SEPARATION, INITIAL_TIME_RANGE,
    LAST_CLUSTER_POINT, LAST_INITIAL_TIME, MAX_PLACEMENT_FAILURES, WORLD_MARGIN,
};
use creatures::geometry::Point;

fn p(x: i32, y: i32) -> Point {
    Point::new(x, y)
}

fn creature_at(x: i32, y: i32) -> Collectible {
    Collectible::new(x, y, 100_000, 800_000, 0, String::from("c"), false, 10_000_000)
}

fn squared_distance(a: Point, b: Point) -> i64 {
    let dx = (a.x - b.x) as i64;
    let dy = (a.y - b.y) as i64;
    dx * dx + dy * dy
}

#[test]
fn placed_creatures_keep_the_separation() {
    for _ in 0..20 {
        let placed =
            generate_collectibles(2_000_000, 2_000_000, 100, 200_000, 800_000, 100_000, 3000)
                .unwrap();
        assert_eq!(placed.len(), 100);
        for i in 0..placed.len() {
            for j in (i + 1)..placed.len() {
                assert!(squared_distance(placed[i].position, placed[j].position) >= 9_000_000);
            }
        }
    }
}

#[test]
fn placed_creatures_keep_a_large_separation() {
    let mut successes = 0;
    for _ in 0..50 {
        if let Ok(placed) =
            generate_collectibles(2_000_000, 2_000_000, 30, 200_000, 800_000, 100_000, 40_000)
        {
            successes += 1;
            assert_eq!(placed.len(), 30);
            for i in 0..placed.len() {
                for j in (i + 1)..placed.len() {
                    assert!(
                        squared_distance(placed[i].position, placed[j].position)
                            >= 40_000i64 * 40_000
                    );
                }
            }
        }
    }
    assert!(successes > 0);
}

#[test]
fn placed_creatures_are_new_and_inside_the_margins() {
    let placed =
        generate_collectibles(2_000_000, 2_000_000, 100, 200_000, 800_000, 100_000, 3000).unwrap();
    let anchors = get_cluster_points(ClusterPointCollection::Collection2, 2_000_000, 2_000_000);
    for (i, c) in placed.iter().enumerate() {
        assert_eq!(c.id, format!("collect{}", i));
        assert!(c.active);
        assert!(!c.in_proximity);
        assert_eq!(c.size, 100_000);
        assert_eq!(c.radius, 50_000);
        assert_eq!(c.max_distance_threshold, 800_000);
        assert_eq!(c.normalized_distance, 10);
        assert_eq!(c.distance_from_player, 1_000_000);
        assert!((0..6280).contains(&c.time));
        assert_eq!(c.mesh.len(), 20);
        assert_eq!(c.tentacle.base_position, c.position);
        assert_eq!(c.eye.position, c.position);
        assert!(WORLD_MARGIN <= c.position.x && c.position.x <= 2_000_000 - WORLD_MARGIN);
        assert!(WORLD_MARGIN <= c.position.y && c.position.y <= 2_000_000 - WORLD_MARGIN);
        assert!((c.position.x - 1_000_000).abs() <= 200_000);
        assert!(anchors.iter().any(|a| (c.position.y - a.1).abs() <= 200_000
            || c.position.y == 2_000_000 - WORLD_MARGIN));
    }
}

#[test]
fn placement_draws_vary() {
    let placed =
        generate_collectibles(2_000_000, 2_000_000, 100, 200_000, 800_000, 100_000, 0).unwrap();
    let mut xs: Vec<i32> = placed.iter().map(|c| c.position.x).collect();
    let mut ys: Vec<i32> = placed.iter().map(|c| c.position.y).collect();
    let mut times: Vec<i32> = placed.iter().map(|c| c.time).collect();
    xs.sort();
    xs.dedup();
    ys.sort();
    ys.dedup();
    times.sort();
    times.dedup();
    assert!(xs.len() > 50);
    assert!(ys.len() > 50);
    assert!(times.len() > 50);
    assert!(xs[0] < 1_000_000 && xs[xs.len() - 1] > 1_000_000);
}

#[test]
fn placement_fails_when_the_world_is_too_crowded() {
    let result = generate_collectibles(40_000, 40_000, 2, 200_000, 800_000, 100_000, 3000);
    assert_eq!(result.err(), Some(PlacementError::Exhausted));
    let result = generate_collectibles(2_000_000, 2_000_000, 100, 0, 800_000, 100_000, 3000);
    assert_eq!(result.err(), Some(PlacementError::Exhausted));
    assert_eq!(PlacementError::Exhausted.message(), "Failed to place collectible");
}

#[test]
fn one_creature_is_always_placed() {
    for _ in 0..100 {
        let placed =
            generate_collectibles(40_000, 40_000, 1, 0, 1000, 0, i32::MAX).unwrap();
        assert_eq!(placed.len(), 1);
        assert_eq!(placed[0].position, p(20_000, 20_000));
        assert_eq!(placed[0].id, "collect0");
    }
}

#[test]
fn without_separation_placement_always_succeeds() {
    for min_separation in [0, -1, i32::MIN] {
        let placed =
            generate_collectibles(40_000, 40_000, 50, 1000, 800_000, 100_000, min_separation)
                .unwrap();
        assert_eq!(placed.len(), 50);
    }
}

#[test]
fn no_creatures_are_placed_for_a_count_of_zero_or_less() {
    for count in [0, -1, i32::MIN] {
        let placed =
            generate_collectibles(2_000_000, 2_000_000, count, 200_000, 800_000, 100_000, 3000)
                .unwrap();
        assert!(placed.is_empty());
    }
}

#[test]
fn placement_in_the_largest_world() {
    let placed = generate_collectibles(
        1_000_000_000,
        1_000_000_000,
        10,
        1_000_000_000,
        1_000_000_000,
        1_000_000_000,
        3000,
    )
    .unwrap();
    assert_eq!(placed.len(), 10);
    for c in &placed {
        assert!(WORLD_MARGIN <= c.position.x && c.position.x <= 1_000_000_000 - WORLD_MARGIN);
    }
}

#[test]
fn candidate_is_moved_inside_the_margins() {
    assert_eq!(candidate_position(5, 1_999_999, 2_000_000, 2_000_000), p(20_000, 1_980_000));
    assert_eq!(candidate_position(20_000, 1_980_000, 2_000_000, 2_000_000), p(20_000, 1_980_000));
    assert_eq!(candidate_position(700_000, 20_001, 2_000_000, 2_000_000), p(700_000, 20_001));
    assert_eq!(candidate_position(i32::MIN, i32::MAX, 40_000, 50_000), p(20_000, 30_000));
}

#[test]
fn candidate_is_clear_when_no_creature_is_too_close() {
    let placed = vec![creature_at(0, 0), creature_at(100_000, 0)];
    assert!(is_clear(&placed, p(3000, 0), 3000));
    assert!(!is_clear(&placed, p(2999, 0), 3000));
    assert!(!is_clear(&placed, p(0, 0), 1));
    assert!(is_clear(&placed, p(0, 0), 0));
    assert!(is_clear(&placed, p(0, 0), -5));
    assert!(!is_clear(&placed, p(102_000, 2000), 3000));
    assert!(is_clear(&placed, p(102_122, 2122), 3000));
    assert!(is_clear(&vec![], p(0, 0), i32::MAX));
    assert!(!is_clear(&placed, p(1_000_000_000, 1_000_000_000), i32::MAX));
}

#[test]
fn step_places_retries_or_aborts() {
    assert_eq!(MAX_PLACEMENT_FAILURES, 20);
    assert_eq!(DEFAULT_MIN_SEPARATION, 3000);
    let placed = vec![creature_at(0, 0)];
    assert_eq!(placement_step(&placed, p(5000, 0), 0, 3000), PlacementStep::Place);
    assert_eq!(placement_step(&placed, p(5000, 0), 19, 3000), PlacementStep::Place);
    assert_eq!(placement_step(&placed, p(1000, 0), 0, 3000), PlacementStep::Retry);
    assert_eq!(placement_step(&placed, p(1000, 0), 18, 3000), PlacementStep::Retry);
    assert_eq!(placement_step(&placed, p(1000, 0), 19, 3000), PlacementStep::Abort);
    assert_eq!(placement_step(&vec![], p(1000, 0), 19, 3000), PlacementStep::Place);
}

#[test]
fn labels_are_collect_and_the_index() {
    assert_eq!(label_of(0), "collect0");
    assert_eq!(label_of(7), "collect7");
    assert_eq!(label_of(10), "collect10");
    assert_eq!(label_of(99), "collect99");
    assert_eq!(label_of(1203), "collect1203");
    assert_eq!(label_of(u32::MAX), "collect4294967295");
    assert_eq!(decimal_string(0), "0");
    assert_eq!(decimal_string(100), "100");
    assert_eq!(decimal_string(90_807), "90807");
}

#[test]
fn anchors_of_the_diagonal_collection() {
    let points = get_cluster_points(ClusterPointCollection::Collection1, 2_000_000, 1_000_000);
    assert_eq!(
        points,
        vec![
            (140_000, 500_000),
            (300_000, 530_000),
            (400_000, 580_000),
            (600_000, 600_000),
            (800_000, 650_000),
            (880_000, 700_000),
            (1_000_000, 740_000),
            (1_200_000, 750_000),
            (1_300_000, 800_000),
            (1_400_000, 840_000),
            (1_500_000, 880_000),
            (1_600_000, 900_000),
            (1_700_000, 920_000),
            (1_800_000, 980_000),
        ]
    );
}

#[test]
fn anchors_of_the_vertical_collection() {
    let points = get_cluster_points(ClusterPointCollection::Collection2, 2_000_000, 2_000_000);
    let heights: Vec<i32> = points.iter().map(|a| a.1).collect();
    assert_eq!(points.len(), 14);
    assert!(points.iter().all(|a| a.0 == 1_000_000));
    assert_eq!(
        heights,
        vec![
            1_000_000, 1_060_000, 1_160_000, 1_200_000, 1_300_000, 1_400_000, 1_480_000,
            1_500_000, 1_600_000, 1_680_000, 1_760_000, 1_800_000, 1_840_000, 1_960_000
        ]
    );
}

#[test]
fn anchors_round_down() {
    let points = get_cluster_points(ClusterPointCollection::Collection1, 7, -7);
    assert_eq!(points[0], (0, -4));
    assert_eq!(points[13], (6, -7));
    let points = get_cluster_points(ClusterPointCollection::Collection2, i32::MAX, i32::MIN);
    assert_eq!(points[0], (1_073_741_823, -1_073_741_824));
    assert_eq!(points[13], (1_073_741_823, -2_104_533_976));
}

#[test]
fn places_are_drawn_from_the_window_around_the_anchor() {
    assert_eq!(
        jitter_window((1_000_000, 1_200_000), 200_000),
        (800_000, 1_200_000, 1_000_000, 1_400_000)
    );
    assert_eq!(jitter_window((0, 0), 0), (0, 0, 0, 0));
    assert_eq!(
        jitter_window((0, 1_000_000_000), 1_000_000_000),
        (-1_000_000_000, 1_000_000_000, 0, 2_000_000_000)
    );
    assert_eq!(INITIAL_TIME_RANGE, 6280);
    assert_eq!(LAST_INITIAL_TIME, 6279);
    assert_eq!(LAST_CLUSTER_POINT, 13);
}

#[test]
fn draws_cover_their_whole_ranges() {
    let mut anchors = std::collections::BTreeSet::new();
    let mut least_x = i32::MAX;
    let mut greatest_x = i32::MIN;
    let mut least_time = i32::MAX;
    let mut greatest_time = i32::MIN;
    for _ in 0..40 {
        let placed =
            generate_collectibles(2_000_000, 2_000_000, 100, 200_000, 800_000, 100_000, 0)
                .unwrap();
        for c in &placed {
            least_x = least_x.min(c.position.x);
            greatest_x = greatest_x.max(c.position.x);
            least_time = least_time.min(c.time);
            greatest_time = greatest_time.max(c.time);
        }
        let exact =
            generate_collectibles(2_000_000, 2_000_000, 100, 0, 800_000, 100_000, 0).unwrap();
        for c in &exact {
            anchors.insert(c.position.y);
        }
    }
    assert_eq!(anchors.len(), 14);
    assert!(least_x < 810_000 && greatest_x > 1_190_000);
    assert!(least_x >= 800_000 && greatest_x <= 1_200_000);
    assert!(least_time < 100 && greatest_time > 6180);
}
