use vstd::prelude::*;
use crate::fixed::{SECOND, LIMIT, Vec2, within, clamp, clamp_spec, div_trunc, div_trunc_spec};
use crate::player::MAX_TICK;
use crate::circle::floor_sqrt;

verus! {

/// Field of view with the vessel at rest (20 units).
pub const BASE_FOV: i64 = 20_000_000;

/// Millionths of the remaining gap closed per microsecond, times `SECOND`:
/// the camera runs on 0.8 of the simulation time at a rate of 4 per second.
pub const FOLLOW_NUM: i64 = 16;
pub const FOLLOW_DEN: i64 = 5;

/// Share of the gap, in millionths, that the camera closes over a tick of `dt`.
pub open spec fn follow_fraction(dt: int) -> int {
    let f = dt * FOLLOW_NUM / FOLLOW_DEN as int;
    if f < SECOND { f } else { SECOND as int }
}

/// Part of a gap `m >= 0` closed at fraction `frac` (in millionths), rounded up so that
/// the view settles exactly on its target.
pub open spec fn close_spec(m: int, frac: int) -> int {
    (m * frac + SECOND - 1) / SECOND as int
}

/// `cur` moved toward `target` by `frac` millionths of the gap, rounded toward `target`.
pub open spec fn approach_spec(cur: int, target: int, frac: int) -> int {
    if target >= cur { cur + close_spec(target - cur, frac) } else { cur - close_spec(cur - target, frac) }
}

proof fn lemma_close_bounds(m: int, frac: int)
    requires
        0 <= m,
        0 <= frac <= SECOND,
    ensures
        0 <= close_spec(m, frac) <= m,
        frac == SECOND ==> close_spec(m, frac) == m,
        m > 0 && frac > 0 ==> close_spec(m, frac) >= 1,
{
    let x = m * frac + SECOND - 1;
    assert(0 <= m * frac <= m * SECOND) by (nonlinear_arith) requires 0 <= m, 0 <= frac <= SECOND;
    assert(x < (m + 1) * SECOND) by (nonlinear_arith) requires x == m * frac + SECOND - 1, m * frac <= m * SECOND;
    assert(x / SECOND as int <= m) by (nonlinear_arith) requires 0 <= x < (m + 1) * SECOND;
    assert(x / SECOND as int >= 0) by (nonlinear_arith) requires 0 <= x;
    if frac == SECOND {
        assert(x / SECOND as int >= m) by (nonlinear_arith) requires x == m * SECOND + SECOND - 1, m >= 0;
    }
    if m > 0 && frac > 0 {
        assert(m * frac >= 1) by (nonlinear_arith) requires m >= 1, frac >= 1;
        assert(x / SECOND as int >= 1) by (nonlinear_arith) requires x >= SECOND;
    }
}

/// Moves `cur` toward `target` by `frac` millionths of the gap, rounded up; never past
/// the target, and onto it when `frac` is whole.
pub fn approach(cur: i64, target: i64, frac: i64) -> (r: i64)
    requires
        within(cur as int, LIMIT as int),
        within(target as int, LIMIT as int),
        0 <= frac <= SECOND,
    ensures
        r == approach_spec(cur as int, target as int, frac as int),
        cur <= target ==> cur <= r <= target,
        target <= cur ==> target <= r <= cur,
        frac == SECOND ==> r == target,
        cur != target && frac > 0 ==> r != cur,
{
    let m = if target >= cur { target - cur } else { cur - target };
    proof {
        lemma_close_bounds(m as int, frac as int);
        assert(0 <= m * frac <= 2 * LIMIT * SECOND) by (nonlinear_arith)
            requires 0 <= m <= 2 * LIMIT, 0 <= frac <= SECOND;
    }
    let step = (m * frac + SECOND - 1) / SECOND;
    if target >= cur { cur + step } else { cur - step }
}

/// The camera after `follow(pos, vel)`.
pub open spec fn follow_spec(c: Camera, pos: Vec2, vel: Vec2) -> Camera {
    Camera {
        target_pos: Vec2 {
            x: clamp_spec(pos.x + div_trunc_spec(vel.x * 7, 10)) as i64,
            y: clamp_spec(pos.y + div_trunc_spec(vel.y * 7, 10)) as i64,
        },
        target_fov: clamp_spec(BASE_FOV + floor_sqrt(vel.len_sq_spec()) * 3 / 10) as i64,
        ..c
    }
}

/// The camera after `update(dt)`.
pub open spec fn camera_update_spec(c: Camera, dt: int) -> Camera {
    Camera {
        pos: Vec2 {
            x: approach_spec(c.pos.x as int, c.target_pos.x as int, follow_fraction(dt)) as i64,
            y: approach_spec(c.pos.y as int, c.target_pos.y as int, follow_fraction(dt)) as i64,
        },
        fov: approach_spec(c.fov as int, c.target_fov as int, follow_fraction(dt)) as i64,
        ..c
    }
}

/// The view: where it looks and how wide, and where and how wide it is heading.
#[derive(Clone, Copy, PartialEq, Eq, Structural, Debug)]
pub struct Camera {
    pub pos: Vec2,
    pub target_pos: Vec2,
    pub fov: i64,
    pub target_fov: i64,
}

impl Camera {
    pub open spec fn wf(self) -> bool {
        &&& self.pos.bounded()
        &&& self.target_pos.bounded()
        &&& within(self.fov as int, LIMIT as int)
        &&& within(self.target_fov as int, LIMIT as int)
    }

    /// A camera at the origin with field of view `fov`, at rest on its target.
    pub fn new(fov: i64) -> (c: Camera)
        requires
            within(fov as int, LIMIT as int),
        ensures
            c.wf(),
            c.pos == (Vec2 { x: 0, y: 0 }),
            c.target_pos == c.pos,
            c.fov == fov && c.target_fov == fov,
    {
        Camera { pos: Vec2 { x: 0, y: 0 }, target_pos: Vec2 { x: 0, y: 0 }, fov, target_fov: fov }
    }

    /// Aims ahead of the vessel (by 0.7 s of its velocity) and widens the view with speed
    /// (by 0.3 of its speed, with the speed rounded down).
    pub fn follow(&mut self, pos: Vec2, vel: Vec2)
        requires
            old(self).wf(),
            pos.bounded(),
            vel.bounded(),
        ensures
            final(self).wf(),
            *final(self) == follow_spec(*old(self), pos, vel),
            final(self).pos == old(self).pos,
            final(self).fov == old(self).fov,
            final(self).target_pos.x == clamp_spec(pos.x + div_trunc_spec(vel.x * 7, 10)),
            final(self).target_pos.y == clamp_spec(pos.y + div_trunc_spec(vel.y * 7, 10)),
            final(self).target_fov == clamp_spec(BASE_FOV + floor_sqrt(vel.len_sq_spec()) * 3 / 10),
    {
        let ax = div_trunc(vel.x * 7, 10);
        let ay = div_trunc(vel.y * 7, 10);
        self.target_pos = Vec2 { x: pos.x + ax, y: pos.y + ay }.clamped();
        let speed = vel.len();
        assert(vel.len_sq_spec() <= 2 * LIMIT * LIMIT) by (nonlinear_arith)
            requires within(vel.x as int, LIMIT as int), within(vel.y as int, LIMIT as int);
        assert(speed < 0x8000_0000) by (nonlinear_arith)
            requires speed * speed <= 2 * LIMIT * LIMIT, speed >= 0;
        proof { crate::circle::lemma_floor_sqrt_unique(speed as int, vel.len_sq_spec()); }
        self.target_fov = clamp(BASE_FOV + speed * 3 / 10);
    }

    /// Moves the view toward its target over a tick of `dt` microseconds.
    pub fn update(&mut self, dt: i64)
        requires
            old(self).wf(),
            0 <= dt <= MAX_TICK,
        ensures
            final(self).wf(),
            *final(self) == camera_update_spec(*old(self), dt as int),
            final(self).target_pos == old(self).target_pos,
            final(self).target_fov == old(self).target_fov,
            final(self).pos.x == approach_spec(old(self).pos.x as int, old(self).target_pos.x as int, follow_fraction(dt as int)),
            final(self).pos.y == approach_spec(old(self).pos.y as int, old(self).target_pos.y as int, follow_fraction(dt as int)),
            final(self).fov == approach_spec(old(self).fov as int, old(self).target_fov as int, follow_fraction(dt as int)),
    {
        let f = dt * FOLLOW_NUM / FOLLOW_DEN;
        let frac = if f < SECOND { f } else { SECOND };
        self.pos = Vec2 {
            x: approach(self.pos.x, self.target_pos.x, frac),
            y: approach(self.pos.y, self.target_pos.y, frac),
        };
        self.fov = approach(self.fov, self.target_fov, frac);
    }
}

} // verus!
