use vstd::prelude::*;
use crate::fixed::{SCALE, SECOND, LIMIT, Vec2, within, clamp, clamp_spec, div_trunc, div_trunc_spec};
use crate::circle::{Circle, Collision, collide_spec};

verus! {

/// Damping per second, as the fraction `DAMP_NUM / DAMP_DEN` (0.9).
pub const DAMP_NUM: i64 = 9;
pub const DAMP_DEN: i64 = 10;

/// A full turn in microradians, rounded to the nearest step.
pub const TURN: i64 = 6_283_185;

/// A quarter turn in microradians: the heading of a fresh vessel.
pub const QUARTER_TURN: i64 = 1_570_796;

/// Longest tick that one update accepts (ten seconds).
pub const MAX_TICK: i64 = 10_000_000;

/// Radii of the vessel's nose and thruster circles.
pub const HEAD_RADIUS: i64 = 300_000;
pub const THRUSTER_RADIUS: i64 = 600_000;

/// A heading given as `(cos, sin)` of the orientation, each scaled by `SCALE`: a unit
/// vector up to the rounding of each component.
pub open spec fn heading_ok(h: Vec2) -> bool {
    &&& within(h.x as int, SCALE as int)
    &&& within(h.y as int, SCALE as int)
    &&& SCALE * SCALE - 2 * SCALE <= h.len_sq_spec() <= SCALE * SCALE + 2 * SCALE
}

/// What one damping step takes off a speed `m >= 0` over `c` microseconds: the fraction
/// `0.9 * c / SECOND` of it, rounded up so that any motion keeps dying out.
pub open spec fn shed_spec(m: int, c: int) -> int {
    (m * DAMP_NUM * c + DAMP_DEN * SECOND - 1) / (DAMP_DEN * SECOND) as int
}

/// One damping step of a velocity component over `dt` microseconds (at most one second counts).
pub open spec fn damp_spec(v: int, dt: int) -> int {
    let c = if dt < SECOND { dt } else { SECOND as int };
    if v >= 0 { v - shed_spec(v, c) } else { v + shed_spec(-v, c) }
}

/// The angle `a` brought into `[0, TURN)`.
pub open spec fn wrap_spec(a: int) -> int {
    a % (TURN as int)
}

/// Displacement covered in `dt` microseconds at rate `v` per second.
pub open spec fn travel_spec(v: int, dt: int) -> int {
    div_trunc_spec(v * dt, SECOND as int)
}

/// The player's vessel: position and velocity in fixed-point units (per second),
/// orientation in microradians and angular velocity in microradians per second.
#[derive(Clone, Copy, PartialEq, Eq, Structural, Debug)]
pub struct Player {
    pub pos: Vec2,
    pub vel: Vec2,
    pub rotation: i64,
    pub w: i64,
}

pub fn damp(v: i64, dt: i64) -> (r: i64)
    requires
        within(v as int, LIMIT as int),
        0 <= dt,
    ensures
        r == damp_spec(v as int, dt as int),
        within(r as int, LIMIT as int),
{
    let c = if dt < SECOND { dt } else { SECOND };
    let m = if v >= 0 { v } else { -v };
    proof {
        assert(0 <= m * DAMP_NUM * c <= LIMIT * DAMP_NUM * SECOND) by (nonlinear_arith)
            requires 0 <= m <= LIMIT, 0 <= c <= SECOND;
        lemma_damp_toward_zero(v as int, dt as int);
    }
    let shed = (m * DAMP_NUM * c + DAMP_DEN * SECOND - 1) / (DAMP_DEN * SECOND);
    if v >= 0 { v - shed } else { v + shed }
}

/// Displacement covered in `dt` microseconds at rate `v` per second, rounded toward zero.
pub fn travel(v: i64, dt: i64) -> (r: i64)
    requires
        within(v as int, LIMIT as int),
        0 <= dt <= MAX_TICK,
    ensures
        r == travel_spec(v as int, dt as int),
        within(r as int, 64 * LIMIT),
{
    proof {
        assert(within(v * dt, LIMIT * MAX_TICK)) by (nonlinear_arith)
            requires within(v as int, LIMIT as int), 0 <= dt <= MAX_TICK;
        if v * dt >= 0 {
            assert((v * dt) / SECOND as int <= 64 * LIMIT) by (nonlinear_arith)
                requires 0 <= v * dt <= LIMIT * MAX_TICK;
        } else {
            assert((-(v * dt)) / SECOND as int <= 64 * LIMIT) by (nonlinear_arith)
                requires 0 <= -(v * dt) <= LIMIT * MAX_TICK;
        }
    }
    div_trunc(v * dt, SECOND)
}

fn wrap(a: i64) -> (r: i64)
    requires
        within(a as int, 128 * LIMIT),
    ensures
        r == wrap_spec(a as int),
        0 <= r < TURN,
{
    if a >= 0 {
        a % TURN
    } else {
        let m = (-a) % TURN;
        let ghost q = (-a) / (TURN as int);
        proof { vstd::arithmetic::div_mod::lemma_fundamental_div_mod(-a as int, TURN as int); }
        if m == 0 {
            proof { vstd::arithmetic::div_mod::lemma_fundamental_div_mod_converse(a as int, TURN as int, -q, 0); }
            0
        } else {
            proof {
                vstd::arithmetic::div_mod::lemma_fundamental_div_mod_converse(
                    a as int, TURN as int, -q - 1, TURN - m);
            }
            TURN - m
        }
    }
}

proof fn lemma_shed_bounds(m: int, c: int)
    requires
        0 <= m,
        0 <= c <= SECOND,
    ensures
        0 <= shed_spec(m, c) <= m,
        m > 0 && c > 0 ==> shed_spec(m, c) >= 1,
{
    let k = (DAMP_DEN * SECOND) as int;
    let x = m * DAMP_NUM * c + k - 1;
    assert(0 <= m * DAMP_NUM * c <= m * DAMP_NUM * SECOND) by (nonlinear_arith)
        requires 0 <= m, 0 <= c <= SECOND;
    assert(x < (m + 1) * k) by (nonlinear_arith)
        requires x == m * DAMP_NUM * c + k - 1, m * DAMP_NUM * c <= m * DAMP_NUM * SECOND, m >= 0, k == DAMP_DEN * SECOND;
    assert(x / k <= m) by (nonlinear_arith) requires 0 <= x < (m + 1) * k, k > 0;
    assert(x / k >= 0) by (nonlinear_arith) requires 0 <= x, k > 0;
    if m > 0 && c > 0 {
        assert(m * DAMP_NUM * c >= 1) by (nonlinear_arith) requires m >= 1, c >= 1;
        assert(x / k >= 1) by (nonlinear_arith) requires x >= k, k > 0;
    }
}

/// Damping moves a velocity component toward zero and never past it, and over any tick
/// of positive length strictly closer to zero unless it is already at rest.
pub proof fn lemma_damp_toward_zero(v: int, dt: int)
    requires
        0 <= dt,
    ensures
        v >= 0 ==> 0 <= damp_spec(v, dt) <= v,
        v <= 0 ==> v <= damp_spec(v, dt) <= 0,
        v > 0 && dt > 0 ==> damp_spec(v, dt) < v,
        v < 0 && dt > 0 ==> damp_spec(v, dt) > v,
{
    let c = if dt < SECOND { dt } else { SECOND as int };
    if v >= 0 { lemma_shed_bounds(v, c); } else { lemma_shed_bounds(-v, c); }
}

/// An impulse followed by one tick: before damping, the velocity has changed by exactly
/// the impulse and the angular velocity by the skew product of lever arm and impulse;
/// the tick then damps those values. Holds while the sums stay in the world range.
pub proof fn lemma_impulse_then_tick(v: Player, impulse: Vec2, at: Vec2, dt: int)
    requires
        v.wf(),
        impulse.bounded(),
        at.bounded(),
        0 <= dt <= MAX_TICK,
        within(v.vel.x + impulse.x, LIMIT as int),
        within(v.vel.y + impulse.y, LIMIT as int),
        within(v.w + torque_spec(v.pos, impulse, at), LIMIT as int),
    ensures
        update_spec(impulse_spec(v, impulse, at), dt).vel.x == damp_spec(v.vel.x + impulse.x, dt),
        update_spec(impulse_spec(v, impulse, at), dt).vel.y == damp_spec(v.vel.y + impulse.y, dt),
        update_spec(impulse_spec(v, impulse, at), dt).w
            == damp_spec(v.w + torque_spec(v.pos, impulse, at), dt),
{
    lemma_damp_toward_zero(v.vel.x + impulse.x, dt);
    lemma_damp_toward_zero(v.vel.y + impulse.y, dt);
    lemma_damp_toward_zero(v.w + torque_spec(v.pos, impulse, at), dt);
}

/// Without impulses, repeated ticks move each velocity component toward zero and never
/// across it: after any number of ticks the component has the sign it started with, or is
/// zero, and its magnitude has not grown.
pub proof fn lemma_damping_toward_rest(v: Player, dts: Seq<int>)
    requires
        v.wf(),
        forall|i: int| 0 <= i < dts.len() ==> 0 <= #[trigger] dts[i] <= MAX_TICK,
    ensures
        settle(v, dts).wf(),
        v.vel.x >= 0 ==> 0 <= settle(v, dts).vel.x <= v.vel.x,
        v.vel.x <= 0 ==> v.vel.x <= settle(v, dts).vel.x <= 0,
        v.vel.y >= 0 ==> 0 <= settle(v, dts).vel.y <= v.vel.y,
        v.vel.y <= 0 ==> v.vel.y <= settle(v, dts).vel.y <= 0,
        v.w >= 0 ==> 0 <= settle(v, dts).w <= v.w,
        v.w <= 0 ==> v.w <= settle(v, dts).w <= 0,
    decreases dts.len(),
{
    if dts.len() > 0 {
        let rest = dts.drop_last();
        assert forall|i: int| 0 <= i < rest.len() implies 0 <= #[trigger] rest[i] <= MAX_TICK by {
            assert(rest[i] == dts[i]);
        }
        lemma_damping_toward_rest(v, rest);
        let u = settle(v, rest);
        let dt = dts.last();
        lemma_damp_toward_zero(u.vel.x as int, dt);
        lemma_damp_toward_zero(u.vel.y as int, dt);
        lemma_damp_toward_zero(u.w as int, dt);
        lemma_update_wf(u, dt);
    }
}

/// The vessel after ticks of lengths `dts` with no impulse.
pub open spec fn settle(v: Player, dts: Seq<int>) -> Player
    decreases dts.len(),
{
    if dts.len() == 0 { v } else { update_spec(settle(v, dts.drop_last()), dts.last()) }
}

proof fn lemma_update_wf(v: Player, dt: int)
    requires
        v.wf(),
        0 <= dt <= MAX_TICK,
    ensures
        update_spec(v, dt).wf(),
{
    lemma_damp_toward_zero(v.vel.x as int, dt);
    lemma_damp_toward_zero(v.vel.y as int, dt);
    lemma_damp_toward_zero(v.w as int, dt);
    let w = damp_spec(v.w as int, dt);
    vstd::arithmetic::div_mod::lemma_mod_bound(v.rotation + travel_spec(w, dt), TURN as int);
}

/// A point of the vessel at body-frame `offset`, placed by the heading.
pub open spec fn attach_spec(pos: Vec2, offset: Vec2, h: Vec2) -> Vec2 {
    Vec2 {
        x: clamp_spec(pos.x + div_trunc_spec(offset.x * h.x - offset.y * h.y, SCALE as int)) as i64,
        y: clamp_spec(pos.y + div_trunc_spec(offset.x * h.y + offset.y * h.x, SCALE as int)) as i64,
    }
}

/// What `Player::collide` returns: the first hit of head, left thruster, right thruster.
pub open spec fn first_hit(head: Circle, left: Circle, right: Circle, c: Circle) -> Option<Collision> {
    if collide_spec(head, c).is_some() {
        collide_spec(head, c)
    } else if collide_spec(left, c).is_some() {
        collide_spec(left, c)
    } else {
        collide_spec(right, c)
    }
}

/// The vessel after `update(dt)`.
pub open spec fn update_spec(v: Player, dt: int) -> Player {
    let vx = damp_spec(v.vel.x as int, dt);
    let vy = damp_spec(v.vel.y as int, dt);
    let w = damp_spec(v.w as int, dt);
    Player {
        pos: Vec2 {
            x: clamp_spec(v.pos.x + travel_spec(vx, dt)) as i64,
            y: clamp_spec(v.pos.y + travel_spec(vy, dt)) as i64,
        },
        vel: Vec2 { x: vx as i64, y: vy as i64 },
        rotation: wrap_spec(v.rotation + travel_spec(w, dt)) as i64,
        w: w as i64,
    }
}

/// Change of angular velocity, in microradians per second, from `impulse` applied at
/// `at` to a vessel at `pos`: the skew product of lever arm and impulse, which is in
/// square fixed-point steps, brought back to one step.
pub open spec fn torque_spec(pos: Vec2, impulse: Vec2, at: Vec2) -> int {
    div_trunc_spec((at.x - pos.x) * impulse.y - (at.y - pos.y) * impulse.x, SCALE as int)
}

/// The vessel after `apply_impulse(impulse, at)`.
pub open spec fn impulse_spec(v: Player, impulse: Vec2, at: Vec2) -> Player {
    Player {
        vel: Vec2 {
            x: clamp_spec(v.vel.x + impulse.x) as i64,
            y: clamp_spec(v.vel.y + impulse.y) as i64,
        },
        w: clamp_spec(v.w + torque_spec(v.pos, impulse, at)) as i64,
        ..v
    }
}

impl Player {
    /// Position and velocity in the world range, orientation within one turn,
    /// angular velocity within `LIMIT`.
    pub open spec fn wf(self) -> bool {
        &&& self.pos.bounded()
        &&& self.vel.bounded()
        &&& 0 <= self.rotation < TURN
        &&& within(self.w as int, LIMIT as int)
    }

    pub open spec fn head_spec(self, h: Vec2) -> Circle {
        Circle { pos: attach_spec(self.pos, Vec2 { x: -1_000_000i64, y: 0 }, h), r: HEAD_RADIUS }
    }

    pub open spec fn left_thruster_spec(self, h: Vec2) -> Circle {
        Circle { pos: attach_spec(self.pos, Vec2 { x: 1_000_000, y: 1_000_000 }, h), r: THRUSTER_RADIUS }
    }

    pub open spec fn right_thruster_spec(self, h: Vec2) -> Circle {
        Circle { pos: attach_spec(self.pos, Vec2 { x: 1_000_000, y: -1_000_000i64 }, h), r: THRUSTER_RADIUS }
    }

    pub open spec fn new_spec(pos: Vec2) -> Player {
        Player { pos, vel: Vec2 { x: 0, y: 0 }, rotation: QUARTER_TURN, w: 0 }
    }

    /// A vessel at rest at `pos`, pointing a quarter turn from the x axis.
    pub fn new(pos: Vec2) -> (v: Player)
        ensures
            v.pos == pos,
            v.vel == (Vec2 { x: 0, y: 0 }),
            v.rotation == QUARTER_TURN,
            v.w == 0,
            v == Player::new_spec(pos),
    {
        Player { pos, vel: Vec2 { x: 0, y: 0 }, rotation: QUARTER_TURN, w: 0 }
    }

    /// Advances the vessel by `dt` microseconds: damping first (over at most one second),
    /// then integration of position and orientation with the damped velocities.
    pub fn update(&mut self, dt: i64)
        requires
            old(self).wf(),
            0 <= dt <= MAX_TICK,
        ensures
            final(self).wf(),
            *final(self) == update_spec(*old(self), dt as int),
            final(self).vel.x == damp_spec(old(self).vel.x as int, dt as int),
            final(self).vel.y == damp_spec(old(self).vel.y as int, dt as int),
            final(self).w == damp_spec(old(self).w as int, dt as int),
            final(self).pos.x == clamp_spec(old(self).pos.x + travel_spec(final(self).vel.x as int, dt as int)),
            final(self).pos.y == clamp_spec(old(self).pos.y + travel_spec(final(self).vel.y as int, dt as int)),
            final(self).rotation == wrap_spec(old(self).rotation + travel_spec(final(self).w as int, dt as int)),
    {
        self.vel = Vec2 { x: damp(self.vel.x, dt), y: damp(self.vel.y, dt) };
        self.w = damp(self.w, dt);
        let dx = travel(self.vel.x, dt);
        let dy = travel(self.vel.y, dt);
        self.pos = Vec2 { x: clamp(self.pos.x + dx), y: clamp(self.pos.y + dy) };
        let dr = travel(self.w, dt);
        self.rotation = wrap(self.rotation + dr);
    }

    /// Adds `impulse` to the velocity and the skew product of the lever arm
    /// `at - pos` with `impulse` (divided by `SCALE`) to the angular velocity, each kept in
    /// the world range.
    pub fn apply_impulse(&mut self, impulse: Vec2, at: Vec2)
        requires
            old(self).wf(),
            impulse.bounded(),
            at.bounded(),
        ensures
            final(self).wf(),
            *final(self) == impulse_spec(*old(self), impulse, at),
            final(self).pos == old(self).pos,
            final(self).rotation == old(self).rotation,
            final(self).vel.x == clamp_spec(old(self).vel.x + impulse.x),
            final(self).vel.y == clamp_spec(old(self).vel.y + impulse.y),
            final(self).w == clamp_spec(old(self).w + torque_spec(old(self).pos, impulse, at)),
    {
        let arm = at.sub(self.pos);
        proof {
            crate::fixed::lemma_product_bound(arm.x as int, impulse.y as int);
            crate::fixed::lemma_product_bound(arm.y as int, impulse.x as int);
        }
        let torque = arm.skew(impulse);
        self.vel = self.vel.add(impulse).clamped();
        self.w = clamp(self.w + div_trunc(torque, SCALE));
    }

    fn attach(&self, offset: Vec2, h: Vec2) -> (p: Vec2)
        requires
            self.wf(),
            heading_ok(h),
            within(offset.x as int, 4 * SCALE),
            within(offset.y as int, 4 * SCALE),
        ensures
            p == attach_spec(self.pos, offset, h),
            p.bounded(),
    {
        let o = offset.rotated(h);
        Vec2 { x: self.pos.x + o.x, y: self.pos.y + o.y }.clamped()
    }

    /// Exhaust tube of the left thruster (body offset `(0.4, 1)`).
    pub fn left_thruster_tube(&self, h: Vec2) -> (p: Vec2)
        requires
            self.wf(),
            heading_ok(h),
        ensures
            p == attach_spec(self.pos, (Vec2 { x: 400_000, y: 1_000_000 }), h),
            p.bounded(),
    {
        self.attach(Vec2 { x: 400_000, y: 1_000_000 }, h)
    }

    /// Exhaust tube of the right thruster (body offset `(0.4, -1)`).
    pub fn right_thruster_tube(&self, h: Vec2) -> (p: Vec2)
        requires
            self.wf(),
            heading_ok(h),
        ensures
            p == attach_spec(self.pos, (Vec2 { x: 400_000, y: -1_000_000i64 }), h),
            p.bounded(),
    {
        self.attach(Vec2 { x: 400_000, y: -1_000_000i64 }, h)
    }

    /// Left thruster circle (body offset `(1, 1)`, radius 0.6).
    pub fn left_thruster(&self, h: Vec2) -> (c: Circle)
        requires
            self.wf(),
            heading_ok(h),
        ensures
            c == self.left_thruster_spec(h),
            c.wf(),
    {
        Circle { pos: self.attach(Vec2 { x: 1_000_000, y: 1_000_000 }, h), r: THRUSTER_RADIUS }
    }

    /// Right thruster circle (body offset `(1, -1)`, radius 0.6).
    pub fn right_thruster(&self, h: Vec2) -> (c: Circle)
        requires
            self.wf(),
            heading_ok(h),
        ensures
            c == self.right_thruster_spec(h),
            c.wf(),
    {
        Circle { pos: self.attach(Vec2 { x: 1_000_000, y: -1_000_000i64 }, h), r: THRUSTER_RADIUS }
    }

    /// Nose circle (body offset `(-1, 0)`, radius 0.3).
    pub fn head(&self, h: Vec2) -> (c: Circle)
        requires
            self.wf(),
            heading_ok(h),
        ensures
            c == self.head_spec(h),
            c.wf(),
    {
        Circle { pos: self.attach(Vec2 { x: -1_000_000i64, y: 0 }, h), r: HEAD_RADIUS }
    }

    /// Tests the nose, then the left thruster, then the right thruster against `circle`
    /// and returns the first hit.
    pub fn collide(&self, h: Vec2, circle: &Circle) -> (res: Option<Collision>)
        requires
            self.wf(),
            heading_ok(h),
            circle.wf(),
        ensures
            res == first_hit(self.head_spec(h), self.left_thruster_spec(h), self.right_thruster_spec(h), *circle),
            res matches Some(c) ==> c.wf(),
    {
        if let Some(c) = self.head(h).collide(circle) {
            return Some(c);
        }
        if let Some(c) = self.left_thruster(h).collide(circle) {
            return Some(c);
        }
        if let Some(c) = self.right_thruster(h).collide(circle) {
            return Some(c);
        }
        None
    }
}

} // verus!
