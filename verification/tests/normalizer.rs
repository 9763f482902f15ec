use creatures::distance_normalizer::{in_proximity_of, normalize};

#[test]
fn example_distance_100_between_50_and_1000() {
    assert_eq!(normalize(100_000, 50_000, 1_000_000), 947);
    assert!(in_proximity_of(100_000, 800_000));
}

#[test]
fn closeness_is_one_at_or_below_the_near_bound() {
    for d in [i64::MIN, -1, 0, 1, 49_999, 50_000] {
        assert_eq!(normalize(d, 50_000, 1_000_000), 1000);
    }
}

#[test]
fn closeness_is_zero_at_or_beyond_the_far_bound() {
    for d in [1_000_000, 1_000_001, 5_000_000, i64::MAX] {
        assert_eq!(normalize(d, 50_000, 1_000_000), 0);
    }
}

#[test]
fn closeness_at_the_middle_is_half() {
    assert_eq!(normalize(525_000, 50_000, 1_000_000), 500);
}

#[test]
fn closeness_never_grows_with_distance() {
    let mut last = 1000;
    let mut d = 0;
    while d <= 1_100_000 {
        let c = normalize(d, 50_000, 1_000_000);
        assert!(c <= last);
        assert!((0..=1000).contains(&c));
        last = c;
        d += 137;
    }
}

#[test]
fn closeness_strictly_decreases_over_a_thousandth_of_the_span() {
    let step = 950;
    let mut d = 50_000;
    while d + step <= 1_000_000 {
        assert!(normalize(d + step, 50_000, 1_000_000) < normalize(d, 50_000, 1_000_000));
        d += step;
    }
}

#[test]
fn distances_closer_than_the_resolution_may_share_a_closeness() {
    assert_eq!(normalize(999_000, 50_000, 1_000_000), 1);
    assert_eq!(normalize(999_050, 50_000, 1_000_000), 1);
}

#[test]
fn closeness_with_extreme_bounds() {
    assert_eq!(normalize(0, i64::MIN, i64::MAX), 499);
    assert_eq!(normalize(i64::MIN, i64::MIN, i64::MAX), 1000);
    assert_eq!(normalize(i64::MAX, i64::MIN, i64::MAX), 0);
    assert_eq!(normalize(5, 4, 5), 0);
    assert_eq!(normalize(4, 4, 5), 1000);
}

#[test]
fn proximity_is_strictly_below_half_the_threshold() {
    assert!(in_proximity_of(399_999, 800_000));
    assert!(!in_proximity_of(400_000, 800_000));
    assert!(!in_proximity_of(400_001, 800_000));
    assert!(in_proximity_of(0, 1));
    assert!(!in_proximity_of(0, 0));
    assert!(in_proximity_of(-1, -1));
    assert!(!in_proximity_of(i64::MAX, i64::MAX));
}
