use vstd::prelude::*;

verus! {

/// Number of fixed-point steps in one unit of length (lengths are in millionths).
pub const SCALE: i64 = 1_000_000;

/// Number of time ticks in one second (time is counted in microseconds).
pub const SECOND: i64 = 1_000_000;

/// Largest magnitude of a coordinate, a velocity component or a radius.
pub const LIMIT: i64 = 536_870_912;

pub open spec fn clamp_spec(v: int) -> int {
    if v > LIMIT { LIMIT as int } else if v < -LIMIT { -LIMIT } else { v }
}

/// Saturates a value to the world range `[-LIMIT, LIMIT]`.
pub fn clamp(v: i64) -> (r: i64)
    ensures
        r == clamp_spec(v as int),
{
    if v > LIMIT { LIMIT } else if v < -LIMIT { -LIMIT } else { v }
}


/// Rust's truncating division, stated over mathematical integers.
pub open spec fn div_trunc_spec(a: int, b: int) -> int {
    if a >= 0 { a / b } else { -((-a) / b) }
}

/// Divides rounding toward zero.
pub fn div_trunc(a: i64, b: i64) -> (r: i64)
    requires
        b > 0,
        a > i64::MIN,
    ensures
        r == div_trunc_spec(a as int, b as int),
{
    if a >= 0 { a / b } else { -((-a) / b) }
}

/// Floor of the square root: the largest `r` with `r * r <= n`.
pub fn isqrt(n: u64) -> (r: u64)
    requires
        n < 0x4000_0000_0000_0000,
    ensures
        r * r <= n,
        n < (r + 1) * (r + 1),
{
    let mut lo: u64 = 0;
    let mut hi: u64 = 0x8000_0000;
    assert(hi * hi == 0x4000_0000_0000_0000) by (nonlinear_arith)
        requires hi == 0x8000_0000u64;
    while lo + 1 < hi
        invariant
            lo < hi <= 0x8000_0000,
            lo * lo <= n,
            n < hi * hi,
        decreases hi - lo,
    {
        let mid: u64 = lo + (hi - lo) / 2;
        assert(mid * mid <= 0x4000_0000_0000_0000) by (nonlinear_arith)
            requires mid <= 0x8000_0000u64;
        if mid * mid <= n {
            lo = mid;
        } else {
            hi = mid;
        }
    }
    lo
}

/// A point or a displacement in fixed-point units.
#[derive(Clone, Copy, PartialEq, Eq, Structural, Debug)]
pub struct Vec2 {
    pub x: i64,
    pub y: i64,
}

pub open spec fn within(v: int, bound: int) -> bool {
    -bound <= v <= bound
}

impl Vec2 {
    /// Both components lie in the world range.
    pub open spec fn bounded(self) -> bool {
        within(self.x as int, LIMIT as int) && within(self.y as int, LIMIT as int)
    }

    pub open spec fn len_sq_spec(self) -> int {
        self.x * self.x + self.y * self.y
    }

    pub fn new(x: i64, y: i64) -> (r: Vec2)
        ensures
            r.x == x && r.y == y,
    {
        Vec2 { x, y }
    }

    pub fn add(self, o: Vec2) -> (r: Vec2)
        requires
            self.bounded(),
            o.bounded(),
        ensures
            r.x == self.x + o.x,
            r.y == self.y + o.y,
    {
        Vec2 { x: self.x + o.x, y: self.y + o.y }
    }

    pub fn sub(self, o: Vec2) -> (r: Vec2)
        requires
            self.bounded(),
            o.bounded(),
        ensures
            r.x == self.x - o.x,
            r.y == self.y - o.y,
    {
        Vec2 { x: self.x - o.x, y: self.y - o.y }
    }

    /// Each component saturated to the world range.
    pub fn clamped(self) -> (r: Vec2)
        ensures
            r.x == clamp_spec(self.x as int),
            r.y == clamp_spec(self.y as int),
            r.bounded(),
    {
        Vec2 { x: clamp(self.x), y: clamp(self.y) }
    }

    /// Dot product.
    pub fn dot(self, o: Vec2) -> (r: i64)
        requires
            within(self.x as int, 2 * LIMIT),
            within(self.y as int, 2 * LIMIT),
            within(o.x as int, 2 * LIMIT),
            within(o.y as int, 2 * LIMIT),
        ensures
            r == self.x * o.x + self.y * o.y,
    {
        proof { lemma_product_bound(self.x as int, o.x as int); lemma_product_bound(self.y as int, o.y as int); }
        self.x * o.x + self.y * o.y
    }

    /// Two-dimensional cross product (skew product) `self.x * o.y - self.y * o.x`.
    pub fn skew(self, o: Vec2) -> (r: i64)
        requires
            within(self.x as int, 2 * LIMIT),
            within(self.y as int, 2 * LIMIT),
            within(o.x as int, 2 * LIMIT),
            within(o.y as int, 2 * LIMIT),
        ensures
            r == self.x * o.y - self.y * o.x,
    {
        proof { lemma_product_bound(self.x as int, o.y as int); lemma_product_bound(self.y as int, o.x as int); }
        self.x * o.y - self.y * o.x
    }

    /// Squared length.
    pub fn len_sq(self) -> (r: u64)
        requires
            within(self.x as int, 2 * LIMIT),
            within(self.y as int, 2 * LIMIT),
        ensures
            r == self.len_sq_spec(),
            r < 0x4000_0000_0000_0000,
    {
        proof { lemma_product_bound(self.x as int, self.x as int); lemma_product_bound(self.y as int, self.y as int); }
        assert(self.x * self.x >= 0) by (nonlinear_arith);
        assert(self.y * self.y >= 0) by (nonlinear_arith);
        (self.x * self.x + self.y * self.y) as u64
    }

    /// Length, rounded down to a whole fixed-point step.
    pub fn len(self) -> (r: i64)
        requires
            within(self.x as int, 2 * LIMIT),
            within(self.y as int, 2 * LIMIT),
        ensures
            0 <= r,
            r * r <= self.len_sq_spec() < (r + 1) * (r + 1),
    {
        let n = self.len_sq();
        let s = isqrt(n);
        assert(s < 0x8000_0000) by (nonlinear_arith)
            requires s * s <= n, n < 0x4000_0000_0000_0000u64;
        s as i64
    }

    /// Rotates a body-frame offset by a heading given as `(cos, sin)` scaled by `SCALE`.
    pub fn rotated(self, heading: Vec2) -> (r: Vec2)
        requires
            within(self.x as int, 4 * SCALE),
            within(self.y as int, 4 * SCALE),
            within(heading.x as int, SCALE as int),
            within(heading.y as int, SCALE as int),
        ensures
            r.x == div_trunc_spec(self.x * heading.x - self.y * heading.y, SCALE as int),
            r.y == div_trunc_spec(self.x * heading.y + self.y * heading.x, SCALE as int),
            within(r.x as int, 8 * SCALE),
            within(r.y as int, 8 * SCALE),
    {
        proof {
            lemma_small_product(self.x as int, heading.x as int);
            lemma_small_product(self.y as int, heading.y as int);
            lemma_small_product(self.x as int, heading.y as int);
            lemma_small_product(self.y as int, heading.x as int);
        }
        let a = self.x * heading.x - self.y * heading.y;
        let b = self.x * heading.y + self.y * heading.x;
        let rx = div_trunc(a, SCALE);
        let ry = div_trunc(b, SCALE);
        proof { lemma_div_trunc_bound(a as int, 8 * SCALE * SCALE); lemma_div_trunc_bound(b as int, 8 * SCALE * SCALE); }
        Vec2 { x: rx, y: ry }
    }
}

pub proof fn lemma_product_bound(a: int, b: int)
    requires
        within(a, 2 * LIMIT),
        within(b, 2 * LIMIT),
    ensures
        within(a * b, 4 * LIMIT * LIMIT),
{
    assert(within(a * b, 4 * LIMIT * LIMIT)) by (nonlinear_arith)
        requires within(a, 2 * LIMIT), within(b, 2 * LIMIT);
}

proof fn lemma_small_product(a: int, b: int)
    requires
        within(a, 4 * SCALE),
        within(b, SCALE as int),
    ensures
        within(a * b, 4 * SCALE * SCALE),
{
    assert(within(a * b, 4 * SCALE * SCALE)) by (nonlinear_arith)
        requires within(a, 4 * SCALE), within(b, SCALE as int);
}

/// Dividing by `SCALE` shrinks a bound by the same factor.
pub proof fn lemma_div_trunc_bound(a: int, bound: int)
    requires
        within(a, bound),
        bound >= 0,
    ensures
        within(div_trunc_spec(a, SCALE as int), bound / SCALE as int),
{
    if a >= 0 {
        assert(a / SCALE as int <= bound / SCALE as int) by (nonlinear_arith)
            requires a <= bound, a >= 0;
    } else {
        assert((-a) / SCALE as int <= bound / SCALE as int) by (nonlinear_arith)
            requires -a <= bound, -a >= 0;
    }
}

} // verus!
