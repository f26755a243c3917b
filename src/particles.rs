use vstd::prelude::*;
use crate::fixed::{SECOND, LIMIT, Vec2, within, clamp_spec, div_trunc, div_trunc_spec};
use crate::player::{MAX_TICK, travel_spec};

verus! {

/// Time between two emissions of the exhaust emitter (a hundredth of a second).
pub const SPAWN_INTERVAL: i64 = 10_000;

/// Radius of an exhaust particle.
pub const PARTICLE_RADIUS: i64 = 200_000;

/// Largest jitter per axis of an exhaust particle's velocity (0.6 per second).
pub const JITTER: i64 = 600_000;

/// A thruster emits while its force exceeds 0.1, compared here squared.
pub const EMIT_FORCE_SQ: i64 = 10_000_000_000;

/// A color, each channel in thousandths.
#[derive(Clone, Copy, PartialEq, Eq, Structural, Debug)]
pub struct Rgba {
    pub r: u16,
    pub g: u16,
    pub b: u16,
    pub a: u16,
}

pub open spec fn exhaust_color() -> Rgba {
    Rgba { r: 1000, g: 500, b: 0, a: 500 }
}

/// A short-lived exhaust particle; `life` is the time it has left, in microseconds.
#[derive(Clone, Copy, PartialEq, Eq, Structural, Debug)]
pub struct Particle {
    pub pos: Vec2,
    pub vel: Vec2,
    pub r: i64,
    pub color: Rgba,
    pub life: i64,
}

pub open spec fn advance_spec(p: Particle, dt: int) -> Particle {
    Particle {
        pos: Vec2 {
            x: clamp_spec(p.pos.x + travel_spec(p.vel.x as int, dt)) as i64,
            y: clamp_spec(p.pos.y + travel_spec(p.vel.y as int, dt)) as i64,
        },
        life: (p.life - dt) as i64,
        ..p
    }
}

impl Particle {
    /// Position and velocity in the world range, at most one second of life left.
    pub open spec fn wf(self) -> bool {
        self.pos.bounded() && self.vel.bounded() && 0 < self.life <= SECOND
    }

    /// Moves the particle along its velocity for `dt` microseconds and ages it as much.
    pub fn update(&mut self, dt: i64)
        requires
            old(self).wf(),
            0 <= dt <= MAX_TICK,
        ensures
            *final(self) == advance_spec(*old(self), dt as int),
    {
        let dx = crate::player::travel(self.vel.x, dt);
        let dy = crate::player::travel(self.vel.y, dt);
        self.pos = Vec2 { x: self.pos.x + dx, y: self.pos.y + dy }.clamped();
        self.life = self.life - dt;
    }
}

/// Particles that remain of `s` after one advance by `dt`, in their order.
pub open spec fn survivors(s: Seq<Particle>, dt: int) -> Seq<Particle>
    decreases s.len(),
{
    if s.len() == 0 {
        Seq::empty()
    } else {
        let rest = survivors(s.drop_last(), dt);
        let p = advance_spec(s.last(), dt);
        if p.life > 0 { rest.push(p) } else { rest }
    }
}

/// Emission rounds in a tick of `dt` with the emitter's countdown at `acc`: the fewest
/// intervals that bring `acc - dt` back to zero or above.
pub open spec fn rounds_spec(acc: int, dt: int) -> int {
    if acc - dt >= 0 { 0 } else { (dt - acc + SPAWN_INTERVAL - 1) / SPAWN_INTERVAL as int }
}

/// Countdown to the next emission after a tick.
pub open spec fn next_acc_spec(acc: int, dt: int) -> int {
    acc - dt + rounds_spec(acc, dt) * SPAWN_INTERVAL
}

/// The particles `parts` followed by those that a tick of `dt` emits from countdown `acc`.
pub open spec fn emit_spec(parts: Seq<Particle>, ex: Exhaust, acc: int, dt: int) -> Seq<Particle> {
    parts + Seq::new((rounds_spec(acc, dt) * ex.per_round()) as nat, |k: int| ex.emitted(k))
}

/// Velocity of a particle emitted by a thruster pushing with `force`.
pub open spec fn emit_vel_spec(vessel_vel: Vec2, force: Vec2, jitter: Vec2) -> Vec2 {
    Vec2 {
        x: clamp_spec(div_trunc_spec(vessel_vel.x as int, 2) - div_trunc_spec(force.x as int, 10) + jitter.x) as i64,
        y: clamp_spec(div_trunc_spec(vessel_vel.y as int, 2) - div_trunc_spec(force.y as int, 10) + jitter.y) as i64,
    }
}

pub open spec fn emits(force: Vec2) -> bool {
    force.len_sq_spec() > EMIT_FORCE_SQ
}

/// An exhaust emitter: where its two thrusters are, how they push, and the jitters to draw from.
pub struct Exhaust {
    pub left_tube: Vec2,
    pub right_tube: Vec2,
    pub left_force: Vec2,
    pub right_force: Vec2,
    pub vessel_vel: Vec2,
    /// Random offsets for the particles' velocities, used in turn: the `k`-th particle of a
    /// tick takes offset `k % len`, so a tick that emits more particles than there are
    /// offsets starts over from the first one.
    pub jitters: Vec<Vec2>,
}

impl Exhaust {
    pub open spec fn wf(self) -> bool {
        &&& self.left_tube.bounded()
        &&& self.right_tube.bounded()
        &&& self.vessel_vel.bounded()
        &&& within(self.left_force.x as int, LIMIT as int)
        &&& within(self.left_force.y as int, LIMIT as int)
        &&& within(self.right_force.x as int, LIMIT as int)
        &&& within(self.right_force.y as int, LIMIT as int)
        &&& self.jitters@.len() > 0
        &&& forall|i: int| 0 <= i < self.jitters@.len() ==> {
            within(#[trigger] self.jitters@[i].x as int, JITTER as int)
            && within(self.jitters@[i].y as int, JITTER as int)
        }
    }

    /// Thrusters that emit in each round: 0, 1 or 2.
    pub open spec fn per_round(self) -> int {
        (if emits(self.left_force) { 1int } else { 0 }) + (if emits(self.right_force) { 1int } else { 0 })
    }

    /// The `k`-th particle emitted: rounds emit left first, then right.
    pub open spec fn emitted(self, k: int) -> Particle {
        let left = emits(self.left_force) && (!emits(self.right_force) || k % 2 == 0);
        let jitter = self.jitters@[k % self.jitters@.len() as int];
        Particle {
            pos: if left { self.left_tube } else { self.right_tube },
            vel: if left {
                emit_vel_spec(self.vessel_vel, self.left_force, jitter)
            } else {
                emit_vel_spec(self.vessel_vel, self.right_force, jitter)
            },
            r: PARTICLE_RADIUS,
            color: exhaust_color(),
            life: SECOND,
        }
    }
}

fn make_particle(ex: &Exhaust, tube: Vec2, force: Vec2, k: usize) -> (p: Particle)
    requires
        ex.wf(),
        tube.bounded(),
        within(force.x as int, LIMIT as int),
        within(force.y as int, LIMIT as int),
    ensures
        p.wf(),
        p == (Particle {
            pos: tube,
            vel: emit_vel_spec(ex.vessel_vel, force, ex.jitters@[k as int % ex.jitters@.len() as int]),
            r: PARTICLE_RADIUS,
            color: exhaust_color(),
            life: SECOND,
        }),
{
    let j = ex.jitters[k % ex.jitters.len()];
    let vx = div_trunc(ex.vessel_vel.x, 2) - div_trunc(force.x, 10) + j.x;
    let vy = div_trunc(ex.vessel_vel.y, 2) - div_trunc(force.y, 10) + j.y;
    Particle {
        pos: tube,
        vel: Vec2 { x: vx, y: vy }.clamped(),
        r: PARTICLE_RADIUS,
        color: Rgba { r: 1000, g: 500, b: 0, a: 500 },
        life: SECOND,
    }
}

proof fn lemma_rounds(acc0: int, dt: int, n: int)
    requires
        0 <= n,
        acc0 - dt + n * SPAWN_INTERVAL >= 0,
        acc0 - dt >= 0 ==> n == 0,
        n > 0 ==> acc0 - dt + (n - 1) * SPAWN_INTERVAL < 0,
    ensures
        n == rounds_spec(acc0, dt),
{
    if acc0 - dt < 0 {
        let x = dt - acc0 + SPAWN_INTERVAL - 1;
        vstd::arithmetic::div_mod::lemma_fundamental_div_mod(x, SPAWN_INTERVAL as int);
    }
}

/// Emission rounds over consecutive ticks of lengths `dts`, from countdown `acc`.
pub open spec fn rounds_over(acc: int, dts: Seq<int>) -> int
    decreases dts.len(),
{
    if dts.len() == 0 {
        0
    } else {
        rounds_spec(acc, dts[0]) + rounds_over(next_acc_spec(acc, dts[0]), dts.skip(1))
    }
}

/// Countdown after consecutive ticks of lengths `dts`, from countdown `acc`.
pub open spec fn acc_over(acc: int, dts: Seq<int>) -> int
    decreases dts.len(),
{
    if dts.len() == 0 { acc } else { acc_over(next_acc_spec(acc, dts[0]), dts.skip(1)) }
}

pub open spec fn total(dts: Seq<int>) -> int
    decreases dts.len(),
{
    if dts.len() == 0 { 0 } else { dts[0] + total(dts.skip(1)) }
}

/// One tick keeps the countdown in `[0, SPAWN_INTERVAL)`.
pub proof fn lemma_next_acc_range(acc: int, dt: int)
    requires
        0 <= acc < SPAWN_INTERVAL,
        0 <= dt,
    ensures
        0 <= next_acc_spec(acc, dt) < SPAWN_INTERVAL,
        rounds_spec(acc, dt) >= 0,
{
    if acc - dt < 0 {
        let x = dt - acc + SPAWN_INTERVAL - 1;
        vstd::arithmetic::div_mod::lemma_fundamental_div_mod(x, SPAWN_INTERVAL as int);
    }
}

/// Over any run of ticks the emitter performs as many rounds as whole intervals fit in
/// the elapsed time plus the starting countdown, rounded up: no round is lost or doubled.
pub proof fn lemma_rounds_over(acc: int, dts: Seq<int>)
    requires
        0 <= acc < SPAWN_INTERVAL,
        forall|i: int| 0 <= i < dts.len() ==> 0 <= #[trigger] dts[i],
    ensures
        rounds_over(acc, dts) * SPAWN_INTERVAL == total(dts) - acc + acc_over(acc, dts),
        0 <= acc_over(acc, dts) < SPAWN_INTERVAL,
    decreases dts.len(),
{
    if dts.len() > 0 {
        lemma_next_acc_range(acc, dts[0]);
        let rest = dts.skip(1);
        assert forall|i: int| 0 <= i < rest.len() implies 0 <= #[trigger] rest[i] by {
            assert(rest[i] == dts[i + 1]);
        }
        lemma_rounds_over(next_acc_spec(acc, dts[0]), rest);
    }
}

/// An emitter run for one second in total, however the second is cut into ticks and
/// wherever its countdown starts, performs exactly one round per interval: a hundred.
pub proof fn lemma_emission_rate(acc: int, dts: Seq<int>)
    requires
        0 <= acc < SPAWN_INTERVAL,
        forall|i: int| 0 <= i < dts.len() ==> 0 <= #[trigger] dts[i],
        total(dts) == SECOND,
    ensures
        rounds_over(acc, dts) == SECOND / SPAWN_INTERVAL,
{
    lemma_rounds_over(acc, dts);
    let r = rounds_over(acc, dts);
    assert(r == SECOND / SPAWN_INTERVAL) by (nonlinear_arith)
        requires
            r * SPAWN_INTERVAL == SECOND - acc + acc_over(acc, dts),
            0 <= acc < SPAWN_INTERVAL,
            0 <= acc_over(acc, dts) < SPAWN_INTERVAL;
}

/// A particle lives at most one second: one advance by a second or more removes all of
/// a well-formed pool's particles.
pub proof fn lemma_lifetime_ends(s: Seq<Particle>, dt: int)
    requires
        forall|i: int| 0 <= i < s.len() ==> (#[trigger] s[i]).wf(),
        SECOND <= dt <= MAX_TICK,
    ensures
        survivors(s, dt).len() == 0,
    decreases s.len(),
{
    if s.len() > 0 {
        let rest = s.drop_last();
        assert forall|i: int| 0 <= i < rest.len() implies (#[trigger] rest[i]).wf() by {
            assert(rest[i] == s[i]);
        }
        assert(s.last().wf());
        assert(advance_spec(s.last(), dt).life <= 0);
        lemma_lifetime_ends(rest, dt);
    }
}

/// Particles that remain of `s` after consecutive advances by the ticks `dts`.
pub open spec fn age_over(s: Seq<Particle>, dts: Seq<int>) -> Seq<Particle>
    decreases dts.len(),
{
    if dts.len() == 0 { s } else { age_over(survivors(s, dts[0]), dts.skip(1)) }
}

proof fn lemma_survivors_age(s: Seq<Particle>, dt: int, m: int)
    requires
        forall|i: int| 0 <= i < s.len() ==> (#[trigger] s[i]).wf() && s[i].life <= m,
        0 <= dt <= MAX_TICK,
    ensures
        forall|i: int| 0 <= i < survivors(s, dt).len() ==>
            (#[trigger] survivors(s, dt)[i]).wf() && survivors(s, dt)[i].life <= m - dt,
    decreases s.len(),
{
    if s.len() > 0 {
        let rest = s.drop_last();
        assert forall|i: int| 0 <= i < rest.len() implies (#[trigger] rest[i]).wf() && rest[i].life <= m by {
            assert(rest[i] == s[i]);
        }
        lemma_survivors_age(rest, dt, m);
        assert(s.last() == s[s.len() - 1]);
        let r = survivors(rest, dt);
        let p = advance_spec(s.last(), dt);
        if p.life > 0 {
            assert forall|i: int| 0 <= i < r.push(p).len() implies
                (#[trigger] r.push(p)[i]).wf() && r.push(p)[i].life <= m - dt by {
                if i < r.len() { assert(r.push(p)[i] == r[i]); }
            }
        }
    }
}

/// Every particle lives for exactly its remaining life: over any run of ticks, each
/// survivor's life has dropped by the run's total, so once the ticks add up to the largest
/// life in the pool (at most one second) no particle of it is left.
pub proof fn lemma_aging(s: Seq<Particle>, dts: Seq<int>, m: int)
    requires
        forall|i: int| 0 <= i < s.len() ==> (#[trigger] s[i]).wf() && s[i].life <= m,
        forall|i: int| 0 <= i < dts.len() ==> 0 <= #[trigger] dts[i] <= MAX_TICK,
    ensures
        forall|i: int| 0 <= i < age_over(s, dts).len() ==>
            (#[trigger] age_over(s, dts)[i]).wf() && age_over(s, dts)[i].life <= m - total(dts),
        total(dts) >= m ==> age_over(s, dts).len() == 0,
    decreases dts.len(),
{
    if dts.len() > 0 {
        lemma_survivors_age(s, dts[0], m);
        let rest = dts.skip(1);
        assert forall|i: int| 0 <= i < rest.len() implies 0 <= #[trigger] rest[i] <= MAX_TICK by {
            assert(rest[i] == dts[i + 1]);
        }
        lemma_aging(survivors(s, dts[0]), rest, m - dts[0]);
        assert(age_over(s, dts) == age_over(survivors(s, dts[0]), rest));
        assert(total(dts) == dts[0] + total(rest));
    }
    if total(dts) >= m && age_over(s, dts).len() > 0 {
        assert(age_over(s, dts)[0].wf());
    }
}

/// The live exhaust particles and the countdown to the next emission.
pub struct ParticlePool {
    pub particles: Vec<Particle>,
    pub next_spawn: i64,
}

impl ParticlePool {
    pub open spec fn wf(self) -> bool {
        &&& 0 <= self.next_spawn < SPAWN_INTERVAL
        &&& forall|i: int| 0 <= i < self.particles@.len() ==> (#[trigger] self.particles@[i]).wf()
    }

    /// Runs the emitter for `dt` microseconds: the countdown drops by `dt` and, for each
    /// interval needed to bring it back to zero or above, every thruster whose force
    /// exceeds the threshold emits one particle from its tube.
    pub fn emit(&mut self, dt: i64, ex: &Exhaust)
        requires
            old(self).wf(),
            ex.wf(),
            0 <= dt <= MAX_TICK,
        ensures
            final(self).wf(),
            final(self).next_spawn == next_acc_spec(old(self).next_spawn as int, dt as int),
            final(self).particles@.len() == old(self).particles@.len()
                + rounds_spec(old(self).next_spawn as int, dt as int) * ex.per_round(),
            final(self).particles@ == emit_spec(old(self).particles@, *ex, old(self).next_spawn as int, dt as int),
            final(self).particles@.subrange(0, old(self).particles@.len() as int) == old(self).particles@,
            forall|k: int| 0 <= k < final(self).particles@.len() - old(self).particles@.len() ==>
                final(self).particles@[old(self).particles@.len() + k] == ex.emitted(k),
    {
        let ghost old_parts = self.particles@;
        let ghost acc0 = self.next_spawn as int;
        let left_on = ex.left_force.len_sq() > EMIT_FORCE_SQ as u64;
        let right_on = ex.right_force.len_sq() > EMIT_FORCE_SQ as u64;
        let mut acc: i64 = self.next_spawn - dt;
        let mut k: usize = 0;
        let ghost mut rounds: int = 0;
        while acc < 0
            invariant
                ex.wf(),
                left_on == emits(ex.left_force),
                right_on == emits(ex.right_force),
                0 <= rounds,
                acc == acc0 - dt + rounds * SPAWN_INTERVAL,
                acc < SPAWN_INTERVAL,
                0 <= acc0 < SPAWN_INTERVAL,
                0 <= dt <= MAX_TICK,
                acc0 - dt >= 0 ==> rounds == 0,
                rounds > 0 ==> acc0 - dt + (rounds - 1) * SPAWN_INTERVAL < 0,
                k == rounds * ex.per_round(),
                rounds * SPAWN_INTERVAL <= MAX_TICK + SPAWN_INTERVAL,
                self.particles@.len() == old_parts.len() + k,
                self.particles@.subrange(0, old_parts.len() as int) == old_parts,
                forall|i: int| 0 <= i < self.particles@.len() ==> (#[trigger] self.particles@[i]).wf(),
                forall|j: int| 0 <= j < k ==> self.particles@[old_parts.len() + j] == ex.emitted(j),
            decreases SPAWN_INTERVAL - acc,
        {
            acc = acc + SPAWN_INTERVAL;
            let ghost k0 = k as int;
            proof {
                rounds = rounds + 1;
                assert(k0 <= 2 * (rounds - 1)) by (nonlinear_arith)
                    requires k0 == (rounds - 1) * ex.per_round(), 0 <= ex.per_round() <= 2, rounds >= 1;
            }
            if left_on {
                let p = make_particle(ex, ex.left_tube, ex.left_force, k);
                assert(p == ex.emitted(k as int)) by {
                    if right_on { assert((rounds - 1) * 2 + 0 == k); assert((k as int) % 2 == 0); }
                }
                self.particles.push(p);
                k = k + 1;
            }
            if right_on {
                let p = make_particle(ex, ex.right_tube, ex.right_force, k);
                assert(p == ex.emitted(k as int)) by {
                    if left_on { assert((rounds - 1) * 2 + 1 == k); assert((k as int) % 2 == 1); }
                }
                self.particles.push(p);
                k = k + 1;
            }
            proof {
                assert(k == rounds * ex.per_round()) by (nonlinear_arith)
                    requires k0 == (rounds - 1) * ex.per_round(), k == k0 + ex.per_round();
            }
        }
        proof {
            lemma_rounds(acc0, dt as int, rounds);
            assert(rounds * ex.per_round() >= 0) by (nonlinear_arith)
                requires rounds >= 0, ex.per_round() >= 0;
            let want = emit_spec(old_parts, *ex, acc0, dt as int);
            assert(self.particles@ =~= want) by {
                assert forall|i: int| 0 <= i < want.len() implies self.particles@[i] == want[i] by {
                    if i >= old_parts.len() {
                        assert(self.particles@[old_parts.len() + (i - old_parts.len())] == ex.emitted(i - old_parts.len()));
                    } else {
                        assert(self.particles@.subrange(0, old_parts.len() as int)[i] == old_parts[i]);
                    }
                }
            }
        }
        self.next_spawn = acc;
    }

    /// Moves and ages every particle by `dt` and drops those whose life has run out,
    /// keeping the order of the rest.
    pub fn advance(&mut self, dt: i64)
        requires
            old(self).wf(),
            0 <= dt <= MAX_TICK,
        ensures
            final(self).wf(),
            final(self).next_spawn == old(self).next_spawn,
            final(self).particles@ == survivors(old(self).particles@, dt as int),
    {
        let mut out: Vec<Particle> = Vec::new();
        let mut i: usize = 0;
        while i < self.particles.len()
            invariant
                self.wf(),
                0 <= dt <= MAX_TICK,
                i <= self.particles@.len(),
                out@ == survivors(self.particles@.take(i as int), dt as int),
                forall|j: int| 0 <= j < out@.len() ==> (#[trigger] out@[j]).wf(),
            decreases self.particles@.len() - i,
        {
            let mut p = self.particles[i];
            assert(self.particles@[i as int].wf());
            p.update(dt);
            assert(self.particles@.take(i + 1).drop_last() == self.particles@.take(i as int));
            if p.life > 0 {
                out.push(p);
            }
            i = i + 1;
        }
        assert(self.particles@.take(i as int) == self.particles@);
        self.particles = out;
    }

    /// No particles; the first emission comes at once.
    pub fn new() -> (p: ParticlePool)
        ensures
            p.wf(),
            p.particles@.len() == 0,
            p.next_spawn == 0,
    {
        ParticlePool { particles: Vec::new(), next_spawn: 0 }
    }
}

} // verus!
