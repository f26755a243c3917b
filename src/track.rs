use vstd::prelude::*;
use crate::fixed::{SCALE, SECOND, LIMIT, Vec2, within, div_trunc, div_trunc_spec};
use crate::circle::Circle;
use crate::player::{TURN, heading_ok};

verus! {

/// Radius of a tire of the track walls.
pub const TIRE: i64 = 1_000_000;

/// Spacing of the walls' tires along a ring: one diameter, so that neighbours touch.
pub const TIRE_SPACING: i64 = 2_000_000;

/// Spacing of the background decorations along the midline (6 units).
pub const BACKGROUND_SPACING: i64 = 6_000_000;

/// Largest offset per axis of a background decoration (5 units).
pub const BACKGROUND_JITTER: i64 = 5_000_000;

/// Largest base radius of a ring.
pub const MAX_RING: i64 = 200_000_000;

/// Largest magnitude of a noise sample, in thousandths.
pub const NOISE_MAX: i64 = 1000;

/// Radius of a ring of base radius `base` perturbed by a noise sample in `[-1, 1]`
/// (in thousandths), by at most a tenth of the base.
pub open spec fn ring_radius_spec(base: int, noise: int) -> int {
    base + div_trunc_spec(base * noise, 10 * NOISE_MAX)
}

/// Angle, in microradians, that an arc of length `spacing` spans on a circle of radius `r`.
pub open spec fn arc_step_spec(spacing: int, r: int) -> int {
    spacing * SECOND / r
}

/// The point at distance `r` from the origin along heading `h`.
pub open spec fn ring_point_spec(r: int, h: Vec2) -> Vec2 {
    Vec2 { x: div_trunc_spec(r * h.x, SCALE as int) as i64, y: div_trunc_spec(r * h.y, SCALE as int) as i64 }
}

pub fn ring_point(r: i64, h: Vec2) -> (p: Vec2)
    requires
        0 <= r <= LIMIT,
        heading_ok(h),
    ensures
        p == ring_point_spec(r as int, h),
        p.bounded(),
{
    proof {
        assert(within(r * h.x, LIMIT * SCALE)) by (nonlinear_arith) requires 0 <= r <= LIMIT, within(h.x as int, SCALE as int);
        assert(within(r * h.y, LIMIT * SCALE)) by (nonlinear_arith) requires 0 <= r <= LIMIT, within(h.y as int, SCALE as int);
        crate::fixed::lemma_div_trunc_bound(r * h.x, LIMIT * SCALE);
        crate::fixed::lemma_div_trunc_bound(r * h.y, LIMIT * SCALE);
    }
    Vec2 { x: div_trunc(r * h.x, SCALE), y: div_trunc(r * h.y, SCALE) }
}

/// A walk once around a ring, placing items at a fixed arc spacing. The angle is in
/// microradians; the caller samples the noise and the heading at `angle` for each step.
#[derive(Clone, Copy, PartialEq, Eq, Structural, Debug)]
pub struct RingWalk {
    pub angle: i64,
    pub base: i64,
    pub spacing: i64,
}

impl RingWalk {
    pub open spec fn wf(self) -> bool {
        &&& 0 <= self.angle <= TURN + BACKGROUND_SPACING * SECOND
        &&& 0 < self.base <= MAX_RING
        &&& SCALE <= self.spacing <= BACKGROUND_SPACING
    }

    /// A walk that starts at angle zero.
    pub fn new(base: i64, spacing: i64) -> (w: RingWalk)
        requires
            0 < base <= MAX_RING,
            SCALE <= spacing <= BACKGROUND_SPACING,
        ensures
            w.wf(),
            w.angle == 0 && w.base == base && w.spacing == spacing,
    {
        RingWalk { angle: 0, base, spacing }
    }

    /// The walk has not yet gone round.
    pub fn active(&self) -> (r: bool)
        ensures
            r == (self.angle < TURN),
    {
        self.angle < TURN
    }

    /// Radius of the ring at the current step for a noise sample in thousandths.
    pub fn radius(&self, noise: i64) -> (r: i64)
        requires
            self.wf(),
            within(noise as int, NOISE_MAX as int),
        ensures
            r == ring_radius_spec(self.base as int, noise as int),
            self.base - self.base / 10 <= r <= self.base + self.base / 10,
    {
        proof {
            assert(within(self.base * noise, MAX_RING * NOISE_MAX)) by (nonlinear_arith)
                requires 0 < self.base <= MAX_RING, within(noise as int, NOISE_MAX as int);
            let q = self.base * noise;
            if q >= 0 {
                assert(q / (10 * NOISE_MAX) as int <= self.base / 10) by (nonlinear_arith)
                    requires q == self.base * noise, q >= 0, noise <= NOISE_MAX, self.base > 0;
            } else {
                assert(-q == self.base * (-noise)) by (nonlinear_arith) requires q == self.base * noise;
                assert((-q) / (10 * NOISE_MAX) as int <= self.base / 10) by (nonlinear_arith)
                    requires -q == self.base * (-noise), -q >= 0, -noise <= NOISE_MAX, self.base > 0;
            }
        }
        self.base + div_trunc(self.base * noise, 10 * NOISE_MAX)
    }

    /// Moves on by the angle that one spacing spans at radius `r`; always forward.
    pub fn advance(&mut self, r: i64)
        requires
            old(self).wf(),
            old(self).angle < TURN,
            0 < r <= 2 * MAX_RING,
        ensures
            final(self).wf(),
            final(self).base == old(self).base,
            final(self).spacing == old(self).spacing,
            final(self).angle == old(self).angle + arc_step_spec(old(self).spacing as int, r as int),
            final(self).angle > old(self).angle,
    {
        proof {
            assert(self.spacing * SECOND >= r) by (nonlinear_arith)
                requires self.spacing >= SCALE, r <= 2 * MAX_RING;
            assert((self.spacing * SECOND) / (r as int) >= 1) by (nonlinear_arith)
                requires self.spacing * SECOND >= r, r > 0;
            assert((self.spacing * SECOND) / (r as int) <= self.spacing * SECOND) by (nonlinear_arith)
                requires self.spacing * SECOND >= 0, r >= 1;
            assert(self.spacing * SECOND <= BACKGROUND_SPACING * SECOND);
        }
        self.angle = self.angle + self.spacing * SECOND / r;
    }

    /// Places the next tire: at the ring radius perturbed by `noise` along heading `h`
    /// (the heading of the current angle), then moves on by one tire diameter of arc
    /// at that radius.
    pub fn next_tire(&mut self, noise: i64, h: Vec2) -> (c: Circle)
        requires
            old(self).wf(),
            old(self).angle < TURN,
            within(noise as int, NOISE_MAX as int),
            heading_ok(h),
        ensures
            final(self).wf(),
            c.wf(),
            c.r == TIRE,
            c.pos == ring_point_spec(ring_radius_spec(old(self).base as int, noise as int), h),
            final(self).angle == old(self).angle
                + arc_step_spec(old(self).spacing as int, ring_radius_spec(old(self).base as int, noise as int)),
            final(self).angle > old(self).angle,
            final(self).base == old(self).base,
            final(self).spacing == old(self).spacing,
    {
        let r = self.radius(noise);
        let pos = ring_point(r, h);
        self.advance(r);
        Circle { pos, r: TIRE }
    }

    /// Places the next background decoration: on the ring along heading `h`, moved by
    /// `jitter`, then moves on by the spacing.
    pub fn next_decoration(&mut self, h: Vec2, jitter: Vec2) -> (p: Vec2)
        requires
            old(self).wf(),
            old(self).angle < TURN,
            heading_ok(h),
            within(jitter.x as int, BACKGROUND_JITTER as int),
            within(jitter.y as int, BACKGROUND_JITTER as int),
        ensures
            final(self).wf(),
            p.x == ring_point_spec(old(self).base as int, h).x + jitter.x,
            p.y == ring_point_spec(old(self).base as int, h).y + jitter.y,
            final(self).angle == old(self).angle + arc_step_spec(old(self).spacing as int, old(self).base as int),
            final(self).base == old(self).base,
            final(self).spacing == old(self).spacing,
    {
        let at = ring_point(self.base, h);
        self.advance(self.base);
        Vec2 { x: at.x + jitter.x, y: at.y + jitter.y }
    }
}

} // verus!
