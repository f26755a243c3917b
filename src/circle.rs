use vstd::prelude::*;
use crate::fixed::{SCALE, LIMIT, Vec2, within, div_trunc, div_trunc_spec, clamp_spec, isqrt};

verus! {

/// A circle with its center and radius in fixed-point units.
#[derive(Clone, Copy, PartialEq, Eq, Structural, Debug)]
pub struct Circle {
    pub pos: Vec2,
    pub r: i64,
}

/// The contact between two overlapping circles.
#[derive(Clone, Copy, PartialEq, Eq, Structural, Debug)]
pub struct Collision {
    /// Point on the first circle's rim facing the second one.
    pub pos: Vec2,
    /// Direction from the first center toward the second, scaled to length `SCALE`.
    pub normal: Vec2,
    /// How deep the circles overlap; always positive.
    pub penetration: i64,
}

/// `s` is the square root of `n` rounded down.
pub open spec fn is_floor_sqrt(s: int, n: int) -> bool {
    0 <= s && s * s <= n && n < (s + 1) * (s + 1)
}

/// The square root of `n` rounded down.
pub open spec fn floor_sqrt(n: int) -> int {
    choose|s: int| is_floor_sqrt(s, n)
}

pub proof fn lemma_floor_sqrt_unique(s: int, n: int)
    requires
        is_floor_sqrt(s, n),
    ensures
        floor_sqrt(n) == s,
{
    let t = floor_sqrt(n);
    assert(is_floor_sqrt(t, n));
    if t < s {
        assert((t + 1) * (t + 1) <= s * s) by (nonlinear_arith) requires 0 <= t, t + 1 <= s;
    }
    if s < t {
        assert((s + 1) * (s + 1) <= t * t) by (nonlinear_arith) requires 0 <= s, s + 1 <= t;
    }
}

/// Magnitude of the component `c` of an offset of squared length `n > 0`, as a share of
/// `SCALE`: the largest `s` with `s * s * n <= c * c * SCALE * SCALE`.
pub open spec fn share_spec(c: int, n: int) -> int {
    floor_sqrt((c * c * SCALE * SCALE) / n)
}

/// `m` with the sign of `c`.
pub open spec fn signed(c: int, m: int) -> int {
    if c >= 0 { m } else { -m }
}

/// The unit direction of `d`, scaled by `SCALE`, each component rounded toward zero;
/// the direction `(1, 0)` stands for concentric circles.
pub open spec fn direction_spec(d: Vec2) -> Vec2 {
    let n = d.len_sq_spec();
    if n == 0 {
        Vec2 { x: SCALE, y: 0 }
    } else {
        Vec2 { x: signed(d.x as int, share_spec(d.x as int, n)) as i64, y: signed(d.y as int, share_spec(d.y as int, n)) as i64 }
    }
}

/// The circles of `a` and `b` overlap: the distance of their centers is below the sum of the radii.
pub open spec fn overlaps(a: Circle, b: Circle) -> bool {
    (b.pos.x - a.pos.x) * (b.pos.x - a.pos.x) + (b.pos.y - a.pos.y) * (b.pos.y - a.pos.y)
        < (a.r + b.r) * (a.r + b.r)
}

/// The share of a component is the exact rounded-down ratio and never above `SCALE`.
proof fn lemma_share(c: int, o: int)
    requires
        c * c + o * o > 0,
    ensures
        0 <= share_spec(c, c * c + o * o) <= SCALE,
        0 <= (c * c * SCALE * SCALE) / (c * c + o * o) <= SCALE * SCALE,
        share_spec(c, c * c + o * o) * share_spec(c, c * c + o * o) * (c * c + o * o) <= c * c * SCALE * SCALE,
        c * c * SCALE * SCALE < (share_spec(c, c * c + o * o) + 1) * (share_spec(c, c * c + o * o) + 1) * (c * c + o * o),
{
    let n = c * c + o * o;
    let t = c * c * SCALE * SCALE;
    assert(0 <= t <= n * (SCALE * SCALE)) by (nonlinear_arith)
        requires t == c * c * SCALE * SCALE, n == c * c + o * o;
    let q = t / n;
    vstd::arithmetic::div_mod::lemma_fundamental_div_mod(t, n);
    vstd::arithmetic::div_mod::lemma_mod_pos_bound(t, n);
    assert(0 <= q <= SCALE * SCALE) by (nonlinear_arith)
        requires t == n * q + t % n, 0 <= t % n < n, 0 <= t <= n * (SCALE * SCALE), n > 0;
    lemma_floor_sqrt_exists(q);
    let s = floor_sqrt(q);
    assert(is_floor_sqrt(s, q));
    assert(s <= SCALE) by (nonlinear_arith) requires s * s <= q, q <= SCALE * SCALE, s >= 0;
    assert(s * s * n <= t) by (nonlinear_arith)
        requires s * s <= q, t == n * q + t % n, 0 <= t % n, n > 0;
    assert(t < (s + 1) * (s + 1) * n) by (nonlinear_arith)
        requires q + 1 <= (s + 1) * (s + 1), t == n * q + t % n, t % n < n, n > 0;
}

fn share(c: i64, n: u64, other: Ghost<int>) -> (s: i64)
    requires
        within(c as int, 2 * LIMIT),
        n == c * c + other@ * other@,
        n > 0,
        n < 0x4000_0000_0000_0000,
    ensures
        s == share_spec(c as int, n as int),
        0 <= s <= SCALE,
{
    proof {
        crate::fixed::lemma_product_bound(c as int, c as int);
        assert(c * c >= 0) by (nonlinear_arith);
        lemma_share(c as int, other@);
    }
    let cc = (c * c) as u128;
    let ss = (SCALE * SCALE) as u128;
    assert(cc * ss <= 0x4000_0000_0000_0000u128 * 0x1_0000_0000_0000u128) by (nonlinear_arith)
        requires cc <= 0x4000_0000_0000_0000u128, ss <= 0x1_0000_0000_0000u128;
    let t = cc * ss;
    assert(t == c * c * SCALE * SCALE);
    let q = t / (n as u128);
    assert(q <= SCALE * SCALE);
    let r = isqrt(q as u64);
    proof { lemma_floor_sqrt_unique(r as int, q as int); }
    r as i64
}

/// The normal's components: each one's square times the squared offset length is within
/// one step of the offset component's square times `SCALE` squared, with the same sign.
pub open spec fn exact_shares(nrm: Vec2, d: Vec2) -> bool {
    let n = d.len_sq_spec();
    let ax = if nrm.x >= 0 { nrm.x as int } else { -nrm.x };
    let ay = if nrm.y >= 0 { nrm.y as int } else { -nrm.y };
    &&& (d.x >= 0 ==> nrm.x >= 0) && (d.x < 0 ==> nrm.x <= 0)
    &&& (d.y >= 0 ==> nrm.y >= 0) && (d.y < 0 ==> nrm.y <= 0)
    &&& ax * ax * n <= d.x * d.x * SCALE * SCALE < (ax + 1) * (ax + 1) * n
    &&& ay * ay * n <= d.y * d.y * SCALE * SCALE < (ay + 1) * (ay + 1) * n
}

/// What `collide` returns for `a` and `b`.
pub open spec fn collide_spec(a: Circle, b: Circle) -> Option<Collision> {
    let d = Vec2 { x: (b.pos.x - a.pos.x) as i64, y: (b.pos.y - a.pos.y) as i64 };
    let dist = floor_sqrt(d.len_sq_spec());
    let normal = direction_spec(d);
    if overlaps(a, b) {
        Some(Collision {
            pos: Vec2 {
                x: clamp_spec(a.pos.x + div_trunc_spec(normal.x * a.r, SCALE as int)) as i64,
                y: clamp_spec(a.pos.y + div_trunc_spec(normal.y * a.r, SCALE as int)) as i64,
            },
            normal,
            penetration: (a.r + b.r - dist) as i64,
        })
    } else {
        None
    }
}

impl Collision {
    /// The normal has components within `SCALE` and the contact point lies in the world range.
    pub open spec fn wf(self) -> bool {
        &&& within(self.normal.x as int, SCALE as int)
        &&& within(self.normal.y as int, SCALE as int)
        &&& self.pos.bounded()
        &&& 0 < self.penetration <= 2 * LIMIT
    }
}

/// Two well-formed circles collide exactly when the distance of their centers is below
/// the sum of their radii. Then the overlap depth is that sum minus the distance (rounded
/// down) and is positive, and the normal points from the first center toward the second
/// with length `SCALE` up to rounding: its squared length lies in
/// `(SCALE^2 - 2|x| - 2|y| - 2, SCALE^2]`, each component being the exact ratio of
/// offset component to distance rounded toward zero. Concentric circles get `(SCALE, 0)`.
pub proof fn lemma_collide_law(a: Circle, b: Circle)
    requires
        a.wf(),
        b.wf(),
    ensures
        collide_spec(a, b).is_some() <==> overlaps(a, b),
        collide_spec(a, b) matches Some(c) ==> {
            let d = Vec2 { x: (b.pos.x - a.pos.x) as i64, y: (b.pos.y - a.pos.y) as i64 };
            let dist = floor_sqrt(d.len_sq_spec());
            let ax = if c.normal.x >= 0 { c.normal.x as int } else { -c.normal.x };
            let ay = if c.normal.y >= 0 { c.normal.y as int } else { -c.normal.y };
            &&& c.penetration == a.r + b.r - dist
            &&& c.penetration > 0
            &&& within(c.normal.x as int, SCALE as int)
            &&& within(c.normal.y as int, SCALE as int)
            &&& c.normal.len_sq_spec() <= SCALE * SCALE
            &&& d.len_sq_spec() > 0 ==> SCALE * SCALE < (ax + 1) * (ax + 1) + (ay + 1) * (ay + 1)
            &&& d.len_sq_spec() > 0 ==> exact_shares(c.normal, d)
            &&& d.len_sq_spec() == 0 ==> c.normal == (Vec2 { x: SCALE, y: 0 })
        },
{
    let d = Vec2 { x: (b.pos.x - a.pos.x) as i64, y: (b.pos.y - a.pos.y) as i64 };
    let n = d.len_sq_spec();
    assert(d.x * d.x >= 0 && d.y * d.y >= 0) by (nonlinear_arith);
    lemma_floor_sqrt_exists(n);
    let dist = floor_sqrt(n);
    assert(is_floor_sqrt(dist, n));
    let reach = a.r + b.r;
    assert(dist < reach <==> n < reach * reach) by (nonlinear_arith)
        requires is_floor_sqrt(dist, n), reach >= 0;
    if n > 0 {
        lemma_share(d.x as int, d.y as int);
        lemma_share(d.y as int, d.x as int);
        assert(d.y * d.y + d.x * d.x == n);
        let sx = share_spec(d.x as int, n);
        let sy = share_spec(d.y as int, n);
        let cx = d.x * d.x;
        let cy = d.y * d.y;
        let k = SCALE * SCALE;
        assert(sx * sx + sy * sy <= k) by (nonlinear_arith)
            requires sx * sx * n <= cx * k, sy * sy * n <= cy * k, n == cx + cy, n > 0;
        assert(k < (sx + 1) * (sx + 1) + (sy + 1) * (sy + 1)) by (nonlinear_arith)
            requires cx * k < (sx + 1) * (sx + 1) * n, cy * k < (sy + 1) * (sy + 1) * n, n == cx + cy, n > 0;
        assert(signed(d.x as int, sx) * signed(d.x as int, sx) == sx * sx) by (nonlinear_arith);
        assert(signed(d.y as int, sy) * signed(d.y as int, sy) == sy * sy) by (nonlinear_arith);
    } else {
        assert(SCALE * SCALE <= SCALE * SCALE);
    }
}

/// Every non-negative integer has a square root rounded down.
pub proof fn lemma_floor_sqrt_exists(n: int)
    requires
        n >= 0,
    ensures
        exists|s: int| is_floor_sqrt(s, n),
    decreases n,
{
    if n == 0 {
        assert(is_floor_sqrt(0, 0));
    } else {
        lemma_floor_sqrt_exists(n - 1);
        let s = floor_sqrt(n - 1);
        if n < (s + 1) * (s + 1) {
            assert(is_floor_sqrt(s, n));
        } else {
            assert(is_floor_sqrt(s + 1, n)) by (nonlinear_arith)
                requires s >= 0, s * s <= n - 1, n - 1 < (s + 1) * (s + 1), n >= (s + 1) * (s + 1);
        }
    }
}

impl Circle {
    /// Center in the world range and a radius in `[0, LIMIT]`.
    pub open spec fn wf(self) -> bool {
        self.pos.bounded() && 0 <= self.r <= LIMIT
    }

    pub fn new(pos: Vec2, r: i64) -> (c: Circle)
        ensures
            c.pos == pos && c.r == r,
    {
        Circle { pos, r }
    }

    /// Tests this circle against `other`. On overlap the result holds the point of this
    /// circle's rim toward `other` (kept in the world range), the direction toward `other`
    /// and the overlap depth `r + other.r - dist`, where `dist` is the distance of the
    /// centers rounded down.
    pub fn collide(&self, other: &Circle) -> (res: Option<Collision>)
        requires
            self.wf(),
            other.wf(),
        ensures
            res == collide_spec(*self, *other),
            res.is_some() <==> overlaps(*self, *other),
            res matches Some(c) ==> c.wf(),
            res matches Some(c) ==> {
                let d = Vec2 { x: (other.pos.x - self.pos.x) as i64, y: (other.pos.y - self.pos.y) as i64 };
                let dist = self.r + other.r - c.penetration;
                &&& is_floor_sqrt(dist, d.len_sq_spec())
                &&& c.penetration > 0
                &&& c.normal == direction_spec(d)
                &&& c.pos.x == clamp_spec(self.pos.x + div_trunc_spec(c.normal.x * self.r, SCALE as int))
                &&& c.pos.y == clamp_spec(self.pos.y + div_trunc_spec(c.normal.y * self.r, SCALE as int))
            },
    {
        let d = other.pos.sub(self.pos);
        let dist = d.len();
        let reach = self.r + other.r;
        proof {
            assert(dist < reach <==> d.len_sq_spec() < reach * reach) by (nonlinear_arith)
                requires
                    dist * dist <= d.len_sq_spec() < (dist + 1) * (dist + 1),
                    dist >= 0,
                    reach >= 0;
        }
        if dist < reach {
            let n = d.len_sq();
            let normal = if n == 0 {
                Vec2 { x: SCALE, y: 0 }
            } else {
                let sx = share(d.x, n, Ghost(d.y as int));
                proof { assert(n == d.y * d.y + d.x * d.x); }
                let sy = share(d.y, n, Ghost(d.x as int));
                Vec2 { x: if d.x >= 0 { sx } else { -sx }, y: if d.y >= 0 { sy } else { -sy } }
            };
            assert(within(normal.x as int, SCALE as int) && within(normal.y as int, SCALE as int));
            proof {
                assert(within(normal.x * self.r, SCALE * LIMIT)) by (nonlinear_arith)
                    requires within(normal.x as int, SCALE as int), 0 <= self.r <= LIMIT;
                assert(within(normal.y * self.r, SCALE * LIMIT)) by (nonlinear_arith)
                    requires within(normal.y as int, SCALE as int), 0 <= self.r <= LIMIT;
                crate::fixed::lemma_div_trunc_bound(normal.x * self.r, SCALE * LIMIT);
                crate::fixed::lemma_div_trunc_bound(normal.y * self.r, SCALE * LIMIT);
            }
            let ox = div_trunc(normal.x * self.r, SCALE);
            let oy = div_trunc(normal.y * self.r, SCALE);
            let pos = Vec2 { x: self.pos.x + ox, y: self.pos.y + oy }.clamped();
            proof { lemma_floor_sqrt_unique(dist as int, d.len_sq_spec()); }
            Some(Collision { pos, normal, penetration: reach - dist })
        } else {
            None
        }
    }
}

} // verus!
