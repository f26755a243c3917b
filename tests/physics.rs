use trijam_racer::circle::Circle;
use trijam_racer::fixed::{isqrt, Vec2, LIMIT};
use trijam_racer::player::Player;
use trijam_racer::sim::{bump_volume, resolve, thruster_sound, Thrust};
use trijam_racer::camera::{approach, Camera};

fn circle(x: i64, y: i64, r: i64) -> Circle {
    Circle::new(Vec2::new(x, y), r)
}

#[test]
fn isqrt_rounds_down() {
    assert_eq!(isqrt(0), 0);
    assert_eq!(isqrt(15), 3);
    assert_eq!(isqrt(16), 4);
    assert_eq!(isqrt(1_000_000), 1000);
}

#[test]
fn overlapping_circles_collide() {
    let a = circle(0, 0, 1_000_000);
    let b = circle(1_500_000, 0, 1_000_000);
    let c = a.collide(&b).expect("overlap");
    assert_eq!(c.penetration, 500_000);
    assert_eq!(c.normal, Vec2::new(1_000_000, 0));
    assert_eq!(c.pos, Vec2::new(1_000_000, 0));
}

#[test]
fn touching_and_distant_circles_do_not_collide() {
    let a = circle(0, 0, 1_000_000);
    assert!(a.collide(&circle(2_000_000, 0, 1_000_000)).is_none());
    assert!(a.collide(&circle(0, 5_000_000, 1_000_000)).is_none());
}

#[test]
fn diagonal_collision_normal_points_from_first_to_second() {
    let a = circle(0, 0, 600_000);
    let b = circle(300_000, 400_000, 600_000);
    let c = a.collide(&b).expect("overlap");
    assert_eq!(c.penetration, 700_000);
    assert_eq!(c.normal, Vec2::new(600_000, 800_000));
    assert_eq!(c.pos, Vec2::new(360_000, 480_000));
    let n = c.normal;
    assert_eq!(n.x * n.x + n.y * n.y, 1_000_000_000_000);
    let back = b.collide(&a).expect("overlap");
    assert_eq!(back.normal, Vec2::new(-600_000, -800_000));
}

#[test]
fn nearby_centres_still_get_a_unit_normal() {
    let a = circle(0, 0, 1_000_000);
    let b = circle(1000, 1000, 1_000_000);
    let c = a.collide(&b).expect("overlap");
    assert_eq!(c.normal, Vec2::new(707_106, 707_106));
    assert_eq!(c.pos, Vec2::new(707_106, 707_106));
    let len = ((c.normal.x as f64).powi(2) + (c.normal.y as f64).powi(2)).sqrt() / 1_000_000.0;
    assert!((len - 1.0).abs() <= 1e-5);
    let c2 = circle(0, 0, 1_000_000).collide(&circle(-3, 1, 1_000_000)).expect("overlap");
    let len2 = ((c2.normal.x as f64).powi(2) + (c2.normal.y as f64).powi(2)).sqrt() / 1_000_000.0;
    assert!((len2 - 1.0).abs() <= 1e-5);
    assert!(c2.normal.x < 0 && c2.normal.y > 0);
}

#[test]
fn concentric_circles_use_x_axis_normal() {
    let c = circle(5, 5, 100).collide(&circle(5, 5, 50)).expect("overlap");
    assert_eq!(c.normal, Vec2::new(1_000_000, 0));
    assert_eq!(c.penetration, 150);
}

#[test]
fn damping_approaches_rest_without_reversing() {
    let mut v = Player::new(Vec2::new(0, 0));
    v.vel = Vec2::new(50_000_000, -30_000_000);
    v.w = 200_000;
    let mut last = v;
    for _ in 0..2000 {
        v.update(16_667);
        assert!(v.vel.x >= 0 && (v.vel.x < last.vel.x || last.vel.x == 0));
        assert!(v.vel.y <= 0 && (v.vel.y > last.vel.y || last.vel.y == 0));
        assert!(v.w >= 0 && (v.w < last.w || last.w == 0));
        last = v;
    }
    assert_eq!(v.vel, Vec2::new(0, 0));
    assert_eq!(v.w, 0);
}

#[test]
fn damping_step_exact() {
    let mut v = Player::new(Vec2::new(0, 0));
    v.vel = Vec2::new(1000, -1000);
    v.update(1_000_000);
    assert_eq!(v.vel, Vec2::new(100, -100));
    assert_eq!(v.pos, Vec2::new(100, -100));
    v.update(2_000_000);
    assert_eq!(v.vel, Vec2::new(10, -10));
    assert_eq!(v.pos, Vec2::new(120, -120));
}

#[test]
fn impulse_then_tick_changes_velocity_by_impulse() {
    let mut v = Player::new(Vec2::new(1_000_000, 2_000_000));
    v.vel = Vec2::new(300_000, 0);
    v.apply_impulse(Vec2::new(100_000, 200_000), Vec2::new(2_000_000, 2_000_000));
    assert_eq!(v.vel, Vec2::new(400_000, 200_000));
    assert_eq!(v.w, 200_000);
    assert_eq!(v.pos, Vec2::new(1_000_000, 2_000_000));
    v.update(0);
    assert_eq!(v.vel, Vec2::new(400_000, 200_000));
    assert_eq!(v.w, 200_000);
}

#[test]
fn impulse_saturates_at_world_limit() {
    let mut v = Player::new(Vec2::new(0, 0));
    v.vel = Vec2::new(LIMIT, 0);
    v.apply_impulse(Vec2::new(10, 0), Vec2::new(0, 0));
    assert_eq!(v.vel.x, LIMIT);
}

#[test]
fn rotation_wraps_within_a_turn() {
    let mut v = Player::new(Vec2::new(0, 0));
    v.rotation = 0;
    v.w = -1_000_000;
    v.update(1_000);
    assert_eq!(v.w, -999_100);
    assert_eq!(v.rotation, 6_283_185 - 999);
}

#[test]
fn parts_follow_heading() {
    let v = Player::new(Vec2::new(10_000_000, 0));
    let up = Vec2::new(0, 1_000_000);
    assert_eq!(v.head(up).pos, Vec2::new(10_000_000, -1_000_000));
    assert_eq!(v.head(up).r, 300_000);
    assert_eq!(v.left_thruster(up).pos, Vec2::new(9_000_000, 1_000_000));
    assert_eq!(v.right_thruster(up).pos, Vec2::new(11_000_000, 1_000_000));
    assert_eq!(v.left_thruster(up).r, 600_000);
    assert_eq!(v.left_thruster_tube(up), Vec2::new(9_000_000, 400_000));
    assert_eq!(v.right_thruster_tube(up), Vec2::new(11_000_000, 400_000));
}

#[test]
fn vessel_collision_prefers_head() {
    let v = Player::new(Vec2::new(0, 0));
    let right = Vec2::new(1_000_000, 0);
    // The head sits at (-1, 0); an obstacle there touches only the head.
    let hit = v.collide(right, &circle(-2_000_000, 0, 1_000_000)).expect("head hit");
    assert_eq!(hit.penetration, 300_000);
    // An obstacle between the left thruster and the head touches both: the head wins.
    let both = v.collide(right, &circle(0, 800_000, 1_000_000)).expect("hit");
    let head = v.head(right).collide(&circle(0, 800_000, 1_000_000)).expect("head");
    assert_eq!(both, head);
    // Only the right thruster reaches this one.
    let r = v.collide(right, &circle(1_000_000, -2_000_000, 1_000_000)).expect("right hit");
    assert_eq!(r, v.right_thruster(right).collide(&circle(1_000_000, -2_000_000, 1_000_000)).unwrap());
    assert!(v.collide(right, &circle(10_000_000, 0, 1_000_000)).is_none());
}

#[test]
fn resolve_removes_normal_velocity() {
    let mut v = Player::new(Vec2::new(0, 0));
    v.vel = Vec2::new(2_000_000, 500_000);
    let c = circle(0, 0, 600_000).collide(&circle(1_000_000, 0, 600_000)).unwrap();
    let imp = resolve(&mut v, c);
    assert_eq!(imp, Vec2::new(-2_000_000, 0));
    assert_eq!(v.vel, Vec2::new(0, 500_000));
    assert_eq!(v.pos, Vec2::new(-200_000, 0));
    assert_eq!(v.w, 0);
}

#[test]
fn bump_volume_scales_caps_and_mutes() {
    assert_eq!(bump_volume(Vec2::new(1_000_000, 0)), Some(300));
    assert_eq!(bump_volume(Vec2::new(0, -10_000_000)), Some(1000));
    assert_eq!(bump_volume(Vec2::new(300_000, 0)), None);
}

#[test]
fn thruster_sound_needs_more_than_one_unit() {
    let off = Vec2::new(0, 0);
    assert!(thruster_sound(Thrust { left: Vec2::new(10_000_000, 0), right: off }));
    assert!(!thruster_sound(Thrust { left: Vec2::new(1_000_000, 0), right: off }));
    assert!(!thruster_sound(Thrust { left: off, right: off }));
}

#[test]
fn camera_approaches_without_overshoot() {
    assert_eq!(approach(0, 1000, 500_000), 500);
    assert_eq!(approach(0, -1000, 500_000), -500);
    assert_eq!(approach(0, 1000, 1_000_000), 1000);
    let mut cam = Camera::new(20_000_000);
    cam.follow(Vec2::new(10_000_000, 0), Vec2::new(1_000_000, 0));
    assert_eq!(cam.target_pos, Vec2::new(10_700_000, 0));
    assert_eq!(cam.target_fov, 20_300_000);
    let mut prev = cam.pos.x;
    for _ in 0..600 {
        cam.update(16_667);
        assert!(cam.pos.x >= prev && cam.pos.x <= 10_700_000);
        assert!(cam.fov >= 20_000_000 && cam.fov <= 20_300_000);
        prev = cam.pos.x;
    }
    assert_eq!(cam.pos, Vec2::new(10_700_000, 0));
    assert_eq!(cam.fov, 20_300_000);
}
