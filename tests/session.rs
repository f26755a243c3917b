use trijam_racer::fixed::Vec2;
use trijam_racer::lap::{sample_of_angle, sample_of_position, transition, LapEvent, LapState};
use trijam_racer::particles::{Exhaust, Particle, ParticlePool, Rgba};
use trijam_racer::sim::{Controls, Game, INNER, OUTER};
use trijam_racer::circle::Circle;
use trijam_racer::track::{RingWalk, TIRE, TIRE_SPACING};

#[test]
fn lap_counts_forward_crossing_and_resets_timer() {
    let mut laps = LapState::new();
    laps.tick(30_000_000);
    let e = transition(sample_of_angle(-500_000), sample_of_angle(500_000));
    assert_eq!(e, LapEvent::Completed);
    laps.record(e);
    assert_eq!(laps.laps, 1);
    assert_eq!(laps.lap_timer, 0);
    assert_eq!(laps.best, Some(30_000_000));
    let back = transition(sample_of_angle(500_000), sample_of_angle(-500_000));
    assert_eq!(back, LapEvent::Reversed);
    laps.record(back);
    assert_eq!(laps.laps, 0);
}

#[test]
fn lap_best_keeps_shorter_time() {
    let mut laps = LapState::new();
    laps.tick(40);
    laps.record(LapEvent::Completed);
    laps.tick(20);
    laps.record(LapEvent::Completed);
    laps.tick(30);
    laps.record(LapEvent::Completed);
    assert_eq!(laps.best, Some(20));
    assert_eq!(laps.laps, 3);
}

#[test]
fn lap_crossing_far_from_start_is_ignored() {
    assert_eq!(transition(sample_of_angle(-1_500_000), sample_of_angle(500_000)), LapEvent::NoCrossing);
    assert_eq!(transition(sample_of_angle(3_000_000), sample_of_angle(-3_000_000)), LapEvent::NoCrossing);
    assert_eq!(transition(sample_of_angle(100), sample_of_angle(200)), LapEvent::NoCrossing);
}

#[test]
fn lap_samples_from_positions() {
    let r = 62_500_000.0f64;
    let at = |a: f64| Vec2::new((r * a.cos()) as i64, (r * a.sin()) as i64);
    assert_eq!(sample_of_position(at(-0.5)), sample_of_angle(-500_000));
    assert_eq!(sample_of_position(at(0.5)), sample_of_angle(500_000));
    assert_eq!(sample_of_position(at(1.2)), sample_of_angle(1_200_000));
    assert_eq!(sample_of_position(at(-2.0)), sample_of_angle(-2_000_000));
    assert_eq!(sample_of_position(Vec2::new(-5, 0)), sample_of_angle(3_141_592));
}

fn exhaust(left_on: bool, right_on: bool) -> Exhaust {
    Exhaust {
        left_tube: Vec2::new(100, 0),
        right_tube: Vec2::new(-100, 0),
        left_force: if left_on { Vec2::new(10_000_000, 0) } else { Vec2::new(0, 0) },
        right_force: if right_on { Vec2::new(0, 10_000_000) } else { Vec2::new(0, 0) },
        vessel_vel: Vec2::new(2_000_000, 0),
        jitters: vec![Vec2::new(600_000, -600_000), Vec2::new(0, 0)],
    }
}

#[test]
fn one_thruster_emits_a_hundred_particles_per_second() {
    let mut pool = ParticlePool::new();
    let ex = exhaust(true, false);
    let mut elapsed = 0;
    while elapsed < 1_000_000 {
        let dt = if 1_000_000 - elapsed < 16_667 { 1_000_000 - elapsed } else { 16_667 };
        pool.emit(dt, &ex);
        elapsed += dt;
    }
    assert_eq!(pool.particles.len(), 100);
    let p = pool.particles[0];
    assert_eq!(p.pos, Vec2::new(100, 0));
    assert_eq!(p.vel, Vec2::new(1_000_000 - 1_000_000 + 600_000, -600_000));
    assert_eq!(p.r, 200_000);
    assert_eq!(p.life, 1_000_000);
    assert_eq!(pool.particles[1].vel, Vec2::new(0, 0));
}

#[test]
fn both_thrusters_emit_left_then_right() {
    let mut pool = ParticlePool::new();
    pool.emit(25_000, &exhaust(true, true));
    assert_eq!(pool.particles.len(), 6);
    assert_eq!(pool.particles[0].pos, Vec2::new(100, 0));
    assert_eq!(pool.particles[1].pos, Vec2::new(-100, 0));
    assert_eq!(pool.next_spawn, 5_000);
    let mut idle = ParticlePool::new();
    idle.emit(25_000, &exhaust(false, false));
    assert_eq!(idle.particles.len(), 0);
    assert_eq!(idle.next_spawn, 5_000);
}

#[test]
fn particles_expire_after_their_second() {
    let mut pool = ParticlePool::new();
    pool.emit(10_000, &exhaust(true, false));
    assert_eq!(pool.particles.len(), 1);
    pool.advance(500_000);
    assert_eq!(pool.particles.len(), 1);
    assert_eq!(pool.particles[0].life, 500_000);
    assert_eq!(pool.particles[0].pos, Vec2::new(100 + 300_000, -300_000));
    pool.advance(500_000);
    assert_eq!(pool.particles.len(), 0);
}

fn ring(base: i64, seed_shift: f64) -> Vec<Circle> {
    let noise = noise::OpenSimplex::new();
    let mut walk = RingWalk::new(base, TIRE_SPACING);
    let mut out = Vec::new();
    while walk.active() {
        let a = walk.angle as f64 / 1_000_000.0;
        let n = noise::NoiseFn::get(&noise, [a * 10.0 + seed_shift, 0.0]);
        let n = (n.clamp(-1.0, 1.0) * 1000.0) as i64;
        let h = Vec2::new((a.cos() * 1_000_000.0).round() as i64, (a.sin() * 1_000_000.0).round() as i64);
        out.push(walk.next_tire(n, h));
    }
    out
}

#[test]
fn track_generation_is_deterministic() {
    let a = ring(INNER, 0.0);
    let b = ring(INNER, 0.0);
    assert_eq!(a, b);
    assert!(a.len() > 100);
    for c in &a {
        assert_eq!(c.r, TIRE);
        let d2 = c.pos.x * c.pos.x + c.pos.y * c.pos.y;
        assert!(d2 <= 61_000_000 * 61_000_000 && d2 >= 49_000_000 * 49_000_000);
    }
}

#[test]
fn ring_walk_steps_one_tire_diameter() {
    let mut walk = RingWalk::new(50_000_000, TIRE_SPACING);
    let c = walk.next_tire(0, Vec2::new(1_000_000, 0));
    assert_eq!(c.pos, Vec2::new(50_000_000, 0));
    assert_eq!(walk.angle, 40_000);
    let c2 = walk.next_tire(1000, Vec2::new(0, 1_000_000));
    assert_eq!(c2.pos, Vec2::new(0, 55_000_000));
    assert_eq!(walk.angle, 40_000 + 36_363);
    assert_eq!(walk.radius(-1000), 45_000_000);
}

#[test]
fn left_thrust_tick_from_rest() {
    let mut sim = Game::new(Vec::new(), Vec::new());
    assert_eq!(sim.player.pos, Vec2::new((INNER + OUTER) / 2, 0));
    let up = Vec2::new(0, 1_000_000);
    let thrust = sim.begin_tick(16_667, Controls { left: true, right: false }, up);
    assert_eq!(thrust.left, Vec2::new(0, 10_000_000));
    assert_eq!(thrust.right, Vec2::new(0, 0));
    assert_eq!(sim.player.vel, Vec2::new(0, 164_169));
    assert_eq!(sim.player.w, -164_169);
    assert_eq!(sim.player.pos, Vec2::new(62_500_000, 2_736));
    assert_eq!(sim.player.rotation, 1_568_060);
    // Within 1e-4 of the exact integration of one 1/60 s tick.
    let vy = sim.player.vel.y as f64 / 1e6;
    let py = sim.player.pos.y as f64 / 1e6;
    let w = sim.player.w as f64 / 1e6;
    assert!((vy - 0.164167).abs() <= 1e-4);
    assert!((py - 0.0027361).abs() <= 1e-4);
    assert!((w + 0.164167).abs() <= 1e-4);
    assert_eq!(sim.camera.pos, Vec2::new(3_333_375, 0));
    let vols = sim.end_tick(16_667, up, thrust, vec![Vec2::new(0, 0)]);
    assert!(vols.is_empty());
    assert_eq!(sim.particles.particles.len(), 2);
    assert_eq!(sim.t, 16_667);
}

#[test]
fn bump_against_wall_is_resolved_and_heard() {
    let wall = Circle::new(Vec2::new(61_500_000, 2_200_000), 1_000_000);
    let mut sim = Game::new(vec![wall], Vec::new());
    sim.player.vel = Vec2::new(0, 5_000_000);
    let up = Vec2::new(0, 1_000_000);
    let thrust = sim.begin_tick(0, Controls { left: false, right: false }, up);
    let vols = sim.end_tick(0, up, thrust, vec![Vec2::new(0, 0)]);
    assert_eq!(vols, vec![1000]);
    assert_eq!(sim.player.vel.y, 0);
    assert_eq!(sim.player.pos, Vec2::new(62_500_000, -400_000));
}

#[test]
fn driving_across_start_line_counts_lap() {
    let mut sim = Game::new(Vec::new(), Vec::new());
    sim.player.pos = Vec2::new(62_500_000, -100_000);
    sim.player.vel = Vec2::new(0, 30_000_000);
    let up = Vec2::new(0, 1_000_000);
    let thrust = sim.begin_tick(16_667, Controls { left: false, right: false }, up);
    assert_eq!(sim.laps.laps, 1);
    assert_eq!(sim.laps.lap_timer, 0);
    assert_eq!(sim.laps.best, Some(16_667));
    sim.end_tick(16_667, up, thrust, vec![Vec2::new(0, 0)]);
}

#[test]
fn lap_clock_splits_minutes_and_seconds() {
    assert_eq!(trijam_racer::lap::minutes_seconds(0), (0, 0));
    assert_eq!(trijam_racer::lap::minutes_seconds(125_999_999), (2, 5));
}

#[test]
fn particle_update_moves_and_ages() {
    let mut p = Particle {
        pos: Vec2::new(0, 0),
        vel: Vec2::new(1_000_000, -2_000_000),
        r: 200_000,
        color: Rgba { r: 1000, g: 500, b: 0, a: 500 },
        life: 1_000_000,
    };
    p.update(250_000);
    assert_eq!(p.pos, Vec2::new(250_000, -500_000));
    assert_eq!(p.life, 750_000);
    assert_eq!(p.r, 200_000);
}
