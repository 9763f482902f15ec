use creatures::amorphous_mesh_creator::{blob_sample_points_in, NoiseMode};
use creatures::collectible::{Collectible, NoiseRequest, NoiseSamples};
use creatures::collectibles::Collectibles;
use creatures::geometry::Point;
use creatures::player::Player;
use creatures::smoke_effect::{create_pool, pool_is_well_formed, update_pool};
use noise::{NoiseFn, Perlin};

fn sample(perlin: &Perlin, point: Point) -> i32 {
    let value = perlin.get([point.x as f64 / 1000.0, point.y as f64 / 1000.0]);
    ((value * 1000.0).round() as i32).clamp(-1000, 1000)
}

fn answer(perlin: &Perlin, request: &NoiseRequest) -> NoiseSamples {
    NoiseSamples {
        blob: request.blob.iter().map(|p| sample(perlin, *p)).collect(),
        tentacle: request.tentacle.iter().map(|p| sample(perlin, *p)).collect(),
        sin_time: (((request.time as f32 / 1000.0).sin() * 1000.0).round() as i32)
            .clamp(-1000, 1000),
    }
}

fn squared_radius(p: Point) -> i64 {
    p.x as i64 * p.x as i64 + p.y as i64 * p.y as i64
}

#[test]
fn simulation_runs_with_a_perlin_field() {
    let perlin = Perlin::new();
    let mut manager =
        Collectibles::new(2_000_000, 2_000_000, 100, 800_000, 200_000, 100_000, 3000).unwrap();
    let mut player = Player::new();
    player.axis_left = (300, 1000);
    let mut pool = create_pool(10);
    let mut last_times: Vec<(String, i32, i32)> =
        manager.items.iter().map(|c| (c.id.clone(), c.time, 0)).collect();
    for _ in 0..120 {
        assert!(manager.is_well_formed());
        assert!(player.is_well_formed());
        assert!(pool_is_well_formed(&pool));
        let before = manager.items.len();
        manager.update(16, player.position, &player, &mut pool);
        assert!(manager.items.len() <= before);
        let requests = manager.noise_requests();
        assert_eq!(requests.len(), manager.items.len());
        let samples: Vec<NoiseSamples> = requests.iter().map(|r| answer(&perlin, r)).collect();
        manager.reshape(&samples);
        for c in &manager.items {
            assert_eq!(c.mesh.len(), 20);
            assert!((0..=1000).contains(&c.normalized_distance));
            assert!(c.tentacle.current_tentacle_length >= 0);
            assert_eq!(c.tentacle.points.len(), c.tentacle.vertex_count());
            assert_eq!(c.tentacle.color, c.color);
            assert_eq!(c.color.a, 1000);
            // smoothing pulls a vertex inwards by less than a twentieth
            let least = (c.size / 2) as i64 * 400 / 1000 * 19 / 20;
            for v in &c.mesh {
                assert!(squared_radius(*v) >= least * least);
                assert!(squared_radius(*v) <= (c.size as i64) * (c.size as i64));
            }
            let entry = last_times.iter_mut().find(|e| e.0 == c.id).unwrap();
            assert!(c.time >= entry.1);
            entry.1 = c.time;
            entry.2 += 1;
        }
        update_pool(&mut pool, 16);
        player.update(16, 0);
    }
    assert!(last_times.iter().all(|e| e.2 <= 120));
}

#[test]
fn perlin_samples_move_the_outline() {
    let perlin = Perlin::new();
    let mut c = Collectible::new(500_000, 500_000, 100_000, 800_000, 1000, String::from("a"), false, 10_000_000);
    c.set_in_proximity(true, 60_000, 1_000_000);
    let still = c.mesh.clone();
    let mut moved = false;
    for _ in 0..50 {
        c.update(16, Point::new(560_000, 500_000));
        let samples = answer(&perlin, &c.noise_requests());
        assert!(samples.blob.iter().all(|n| (-1000..=1000).contains(n)));
        c.reshape(&samples);
        moved = moved || c.mesh != still;
    }
    assert!(moved);
}

#[test]
fn discrete_mode_switches_the_scales_with_proximity() {
    let far = blob_sample_points_in(NoiseMode::Discrete, 1000, false, 1000);
    let near = blob_sample_points_in(NoiseMode::Discrete, 1000, true, 1000);
    let smooth = blob_sample_points_in(NoiseMode::Interpolated, 1000, true, 1000);
    assert_eq!(far[0], Point::new(500, 200));
    assert_eq!(far[5], Point::new(200, 500));
    assert_eq!(near[0], Point::new(1300, 700));
    assert_eq!(near[10], Point::new(100, 700));
    assert_eq!(smooth[0], Point::new(1200, 600));
    assert_eq!(
        blob_sample_points_in(NoiseMode::Discrete, 1000, true, 0)[0],
        Point::new(1200, 600)
    );
    assert_eq!(
        blob_sample_points_in(NoiseMode::Interpolated, 1000, false, 1000),
        blob_sample_points_in(NoiseMode::Interpolated, 1000, true, 1000)
    );
    let mut c = Collectible::new(0, 0, 100_000, 800_000, 1000, String::from("a"), false, 10_000_000);
    c.noise_mode = NoiseMode::Discrete;
    assert_eq!(c.noise_requests().blob, blob_sample_points_in(NoiseMode::Discrete, 1000, false, 10));
    c.set_in_proximity(true, 100_000, 1_000_000);
    assert_eq!(c.noise_requests().blob, blob_sample_points_in(NoiseMode::Discrete, 1000, true, 947));
}
