use water_sim::fixed::{isqrt, SCALE};
use water_sim::particle::{Particle, SimConfig, Vector, MAX_MAGNITUDE};
use water_sim::step::{check_input, pair_impulse, step, try_step};

fn particle(x: i64, y: i64, vx: i64, vy: i64) -> Particle {
    Particle { position: Vector { x, y }, velocity: Vector { x: vx, y: vy } }
}

fn units(n: i64) -> i64 {
    n * SCALE
}

#[test]
fn two_particle_scenario_follows_index_order() {
    let cfg = SimConfig::standard();
    let a = Particle::at_rest(0, 0);
    let b = Particle::at_rest(units(5), 0);
    // The interaction phase of particle 0 hands out 0.25 along (1, 0).
    assert_eq!(pair_impulse(&a, &b, &cfg), Vector { x: 250_000, y: 0 });
    let mut ps = vec![a, b];
    step(&mut ps, &cfg, units(800), units(600));
    // Particle 0: gravity (0, 0.5), pushed to (-0.25, 0.5), moved to
    // (-0.25, 0.5), clamped on the left wall with vx = -(-0.25) * 0.5.
    assert_eq!(ps[0], particle(0, 500_000, 125_000, 500_000));
    // Particle 1: pushed to (0.25, 0) before its own turn, then gravity.
    assert_eq!(ps[1], particle(5_250_000, 500_000, 250_000, 500_000));
}

#[test]
fn positions_stay_within_bounds() {
    let cfg = SimConfig::standard();
    let mut ps = vec![
        particle(-units(3), units(700), -units(1), units(4)),
        particle(units(900), -units(2), units(9), -units(9)),
        particle(units(400), units(300), 0, 0),
        particle(units(401), units(300), 0, 0),
        particle(units(799), units(599), units(5), units(5)),
    ];
    let (w, h) = (units(800), units(600));
    step(&mut ps, &cfg, w, h);
    for p in &ps {
        assert!(0 <= p.position.x && p.position.x <= w);
        assert!(0 <= p.position.y && p.position.y <= h);
    }
}

#[test]
fn bounds_of_the_call_are_used() {
    let cfg = SimConfig::standard();
    let mut ps = vec![Particle::at_rest(units(700), units(100))];
    step(&mut ps, &cfg, units(500), units(600));
    assert_eq!(ps[0].position.x, units(500));
}

#[test]
fn interaction_changes_are_opposite() {
    let cfg = SimConfig::new(0, SCALE / 2, units(10), SCALE / 20);
    let a = Particle::at_rest(units(100), units(100));
    let b = Particle::at_rest(units(103), units(104));
    let mut ps = vec![a, b];
    step(&mut ps, &cfg, units(800), units(600));
    // Distance 5, overlap 5, force 0.25, unit vector (0.6, 0.8).
    assert_eq!(ps[0].velocity, Vector { x: -150_000, y: -200_000 });
    assert_eq!(ps[1].velocity, Vector { x: 150_000, y: 200_000 });
    assert_eq!(ps[0].velocity.x + ps[1].velocity.x, 0);
    assert_eq!(ps[0].velocity.y + ps[1].velocity.y, 0);
}

#[test]
fn lone_particle_only_falls() {
    let cfg = SimConfig::standard();
    let mut ps = vec![Particle::at_rest(units(400), units(300))];
    step(&mut ps, &cfg, units(800), units(600));
    assert_eq!(ps[0], particle(units(400), units(300) + 500_000, 0, 500_000));
}

#[test]
fn bottom_wall_reflects_with_damping() {
    let cfg = SimConfig::standard();
    let mut ps = vec![particle(units(400), units(601), 0, units(2))];
    step(&mut ps, &cfg, units(800), units(600));
    // Effective velocity 2.5 reflected and halved.
    assert_eq!(ps[0], particle(units(400), units(600), 0, -1_250_000));
}

#[test]
fn corner_triggers_two_walls() {
    let cfg = SimConfig::standard();
    let mut ps = vec![particle(units(1), units(1), -units(3), -units(3))];
    step(&mut ps, &cfg, units(800), units(600));
    assert_eq!(ps[0], particle(0, 0, 1_500_000, 1_250_000));
}

#[test]
fn no_force_at_radius_edge() {
    let cfg = SimConfig::standard();
    let a = Particle::at_rest(units(100), units(100));
    let b = Particle::at_rest(units(110), units(100));
    assert_eq!(pair_impulse(&a, &b, &cfg), Vector { x: 0, y: 0 });
    let c = Particle::at_rest(units(106), units(108));
    assert_eq!(pair_impulse(&a, &c, &cfg), Vector { x: 0, y: 0 });
}

#[test]
fn force_at_half_radius() {
    let cfg = SimConfig::standard();
    let a = Particle::at_rest(units(100), units(100));
    let b = Particle::at_rest(units(105), units(100));
    // K * R / 2 = 0.05 * 5.
    assert_eq!(pair_impulse(&a, &b, &cfg), Vector { x: 250_000, y: 0 });
    assert_eq!(pair_impulse(&b, &a, &cfg), Vector { x: -250_000, y: 0 });
}

#[test]
fn coincident_particles_do_not_interact() {
    let cfg = SimConfig::standard();
    let a = Particle::at_rest(units(100), units(100));
    assert_eq!(pair_impulse(&a, &a, &cfg), Vector { x: 0, y: 0 });
}

#[test]
fn particle_count_is_kept() {
    let cfg = SimConfig::standard();
    let mut ps: Vec<Particle> = (0..40)
        .map(|i| Particle::at_rest(units(i * 3 % 50), units(i * 7 % 30)))
        .collect();
    step(&mut ps, &cfg, units(800), units(600));
    assert_eq!(ps.len(), 40);
    let mut empty: Vec<Particle> = Vec::new();
    step(&mut empty, &cfg, units(800), units(600));
    assert!(empty.is_empty());
}

#[test]
fn checked_step_rejects_out_of_range_input() {
    let mut cfg = SimConfig::standard();
    let start = vec![Particle::at_rest(units(10), units(10))];
    let mut ps = start.clone();
    assert!(check_input(&ps, &cfg, units(800), units(600)));
    cfg.damping = SCALE + 1;
    assert!(!check_input(&ps, &cfg, units(800), units(600)));
    assert!(!try_step(&mut ps, &cfg, units(800), units(600)));
    assert_eq!(ps, start);
    let cfg = SimConfig::standard();
    assert!(!try_step(&mut ps, &cfg, -1, units(600)));
    let mut fast = vec![particle(0, 0, MAX_MAGNITUDE + 1, 0)];
    assert!(!try_step(&mut fast, &cfg, units(800), units(600)));
    assert!(try_step(&mut ps, &cfg, units(800), units(600)));
    assert_eq!(ps[0], particle(units(10), units(10) + 500_000, 0, 500_000));
}

#[test]
fn integer_square_root() {
    assert_eq!(isqrt(0), 0);
    assert_eq!(isqrt(1), 1);
    assert_eq!(isqrt(24), 4);
    assert_eq!(isqrt(25), 5);
    assert_eq!(isqrt(25_000_000_000_000), 5_000_000);
    assert_eq!(isqrt((1u128 << 100) - 1), (1u64 << 50) - 1);
}

#[test]
fn standard_constants() {
    let cfg = SimConfig::standard();
    assert_eq!(cfg, SimConfig::new(500_000, 500_000, 10_000_000, 50_000));
}

#[test]
fn cluster_away_from_walls_keeps_total_velocity() {
    let cfg = SimConfig::new(0, SCALE / 2, units(10), SCALE / 20);
    let mut ps = vec![
        Particle::at_rest(units(400), units(300)),
        Particle::at_rest(units(403), units(301)),
        Particle::at_rest(units(398), units(305)),
        Particle::at_rest(units(401), units(296)),
        Particle::at_rest(units(407), units(303)),
    ];
    step(&mut ps, &cfg, units(800), units(600));
    let sx: i64 = ps.iter().map(|p| p.velocity.x).sum();
    let sy: i64 = ps.iter().map(|p| p.velocity.y).sum();
    assert_eq!((sx, sy), (0, 0));
    assert!(ps.iter().any(|p| p.velocity != Vector { x: 0, y: 0 }));
}
