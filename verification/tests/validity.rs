use creatures::collectible::Collectible;
use creatures::collectible_placement::world_is_valid;
use creatures::collectibles::Collectibles;
use creatures::eye::Eye;
use creatures::flash_effect::FlashEffect;
use creatures::geometry::{Color, Point};
use creatures::player::Player;
use creatures::smoke_effect::{create_pool, pool_is_well_formed, SmokeEffect};
use creatures::tentacle::Tentacle;

fn creature() -> Collectible {
    Collectible::new(0, 0, 100_000, 800_000, 0, String::from("a"), false, 10_000_000)
}

#[test]
fn points_within_the_coordinate_limit() {
    assert!(Point::new(0, 0).is_in_limits());
    assert!(Point::new(1_000_000_000, -1_000_000_000).is_in_limits());
    assert!(!Point::new(1_000_000_001, 0).is_in_limits());
    assert!(!Point::new(0, -1_000_000_001).is_in_limits());
    assert!(!Point::new(i32::MIN, i32::MAX).is_in_limits());
}

#[test]
fn new_values_are_well_formed() {
    assert!(creature().is_well_formed());
    assert!(creature().tentacle.is_well_formed());
    assert!(creature().eye.is_well_formed());
    assert!(Player::new().is_well_formed());
    assert!(SmokeEffect::new_inactive().is_well_formed());
    assert!(FlashEffect::new_inactive().is_well_formed());
    assert!(pool_is_well_formed(&create_pool(10)));
    assert!(pool_is_well_formed(&Vec::new()));
}

#[test]
fn creature_out_of_range_is_not_well_formed() {
    let mut c = creature();
    c.normalized_distance = 1001;
    assert!(!c.is_well_formed());
    let mut c = creature();
    c.normalized_distance = -1;
    assert!(!c.is_well_formed());
    let mut c = creature();
    c.mesh.pop();
    assert!(!c.is_well_formed());
    let mut c = creature();
    c.position.x = 1_000_000_001;
    assert!(!c.is_well_formed());
    let mut c = creature();
    c.tentacle.base_position = Point::new(1, 0);
    assert!(!c.is_well_formed());
    let mut c = creature();
    c.time = 2_000_000_001;
    assert!(!c.is_well_formed());
    let mut c = creature();
    c.size = -1;
    assert!(!c.is_well_formed());
    let mut c = creature();
    c.max_distance_threshold = 999;
    assert!(!c.is_well_formed());
    let mut c = creature();
    c.eye.set_scale(100_000_001);
    assert!(!c.is_well_formed());
    let mut c = creature();
    c.tentacle.current_tentacle_length = -1;
    assert!(!c.is_well_formed());
}

#[test]
fn tentacle_eye_and_player_out_of_range() {
    let mut t = Tentacle::new(Point::new(0, 0), 1, Color::new(0, 0, 0, 0), 0);
    t.target_position = Point::new(i32::MIN, i32::MAX);
    assert!(t.is_well_formed());
    t.time = -1;
    assert!(!t.is_well_formed());
    t.time = 0;
    t.current_tentacle_length = 1_000_000_001;
    assert!(!t.is_well_formed());
    assert!(!Eye::new(0, 0, -1).is_well_formed());
    assert!(Eye::new(i32::MAX, i32::MIN, 100_000_000).is_well_formed());
    let mut p = Player::new();
    p.axis_left = (1001, 0);
    assert!(!p.is_well_formed());
    let mut p = Player::new();
    p.speed = p.max_speed + 1;
    assert!(!p.is_well_formed());
    let mut p = Player::new();
    p.max_speed = 0;
    assert!(!p.is_well_formed());
    let mut p = Player::new();
    p.axis_right = (i32::MAX, i32::MIN);
    assert!(p.is_well_formed());
}

#[test]
fn effects_out_of_range() {
    let mut puff = SmokeEffect::new_inactive();
    puff.timer = puff.duration + 1;
    assert!(puff.is_well_formed());
    puff.timer = -1;
    assert!(!puff.is_well_formed());
    puff.timer = 0;
    puff.duration = 0;
    assert!(!puff.is_well_formed());
    let mut pool = create_pool(3);
    pool[2] = puff;
    assert!(!pool_is_well_formed(&pool));
    let mut flash = FlashEffect::new_inactive();
    flash.timer = 1;
    assert!(flash.is_well_formed());
    flash.timer = -1;
    assert!(!flash.is_well_formed());
}

#[test]
fn worlds_and_managers() {
    assert!(world_is_valid(2_000_000, 2_000_000, 200_000, 800_000, 100_000));
    assert!(world_is_valid(40_000, 40_000, 0, 1000, 0));
    assert!(world_is_valid(1_000_000_000, 1_000_000_000, 1_000_000_000, 1_000_000_000, 1_000_000_000));
    assert!(!world_is_valid(39_999, 2_000_000, 200_000, 800_000, 100_000));
    assert!(!world_is_valid(2_000_000, 39_999, 200_000, 800_000, 100_000));
    assert!(!world_is_valid(2_000_000, 2_000_000, -1, 800_000, 100_000));
    assert!(!world_is_valid(2_000_000, 2_000_000, 200_000, 999, 100_000));
    assert!(!world_is_valid(2_000_000, 2_000_000, 200_000, 800_000, -1));
    assert!(!world_is_valid(1_000_000_001, 2_000_000, 200_000, 800_000, 100_000));
    let mut manager =
        Collectibles::new(2_000_000, 2_000_000, 5, 800_000, 200_000, 100_000, 3000).unwrap();
    assert!(manager.is_well_formed());
    manager.items[3].normalized_distance = 2000;
    assert!(!manager.is_well_formed());
    manager.items[3].normalized_distance = 0;
    manager.screen_width = 0;
    assert!(!manager.is_well_formed());
}
