use vstd::prelude::*;
use crate::fixed::{SCALE, SECOND, LIMIT, Vec2, within, clamp_spec, div_trunc, div_trunc_spec};
use crate::circle::{Circle, Collision, floor_sqrt, lemma_floor_sqrt_unique};
use crate::player::{Player, MAX_TICK, heading_ok, impulse_spec, update_spec, first_hit, attach_spec};
use crate::particles::{ParticlePool, Exhaust, JITTER, emit_spec, survivors, next_acc_spec};
use crate::camera::{Camera, BASE_FOV, follow_spec, camera_update_spec};
use crate::lap::{LapState, sample_of_position, sample_of_position_spec, transition, transition_spec, record_spec, sat_add};

verus! {

/// Base radii of the inner and outer walls of the track.
pub const INNER: i64 = 55_000_000;
pub const OUTER: i64 = 70_000_000;

/// Thrust of one thruster, in units per second squared.
pub const FORCE: i64 = 10;

/// Loudest bump, and the quietest that is still played, in thousandths.
pub const MAX_VOLUME: i64 = 1000;
pub const MIN_VOLUME: i64 = 100;

/// The vessel after being pushed out of an obstacle along the contact normal and
/// having the velocity component into the obstacle taken away at the contact point.
pub open spec fn resolve_spec(v: Player, c: Collision) -> Player {
    let moved = Player {
        pos: Vec2 {
            x: clamp_spec(v.pos.x - div_trunc_spec(c.normal.x * c.penetration, SCALE as int)) as i64,
            y: clamp_spec(v.pos.y - div_trunc_spec(c.normal.y * c.penetration, SCALE as int)) as i64,
        },
        ..v
    };
    impulse_spec(moved, reflect_spec(c.normal, moved.vel), c.pos)
}

/// The impulse that removes from `vel` its component along the unit normal `n`
/// (scaled by `SCALE`).
pub open spec fn reflect_spec(n: Vec2, vel: Vec2) -> Vec2 {
    let d = div_trunc_spec(n.x * vel.x + n.y * vel.y, SCALE as int);
    Vec2 {
        x: clamp_spec(-div_trunc_spec(n.x * d, SCALE as int)) as i64,
        y: clamp_spec(-div_trunc_spec(n.y * d, SCALE as int)) as i64,
    }
}

/// Volume of the bump sound for an impulse, in thousandths: 0.3 of its magnitude in units,
/// at most full volume; `None` when it would be too quiet to play.
pub open spec fn bump_volume_spec(impulse: Vec2) -> Option<i64> {
    let loud = floor_sqrt(impulse.len_sq_spec()) * 3 / 10_000;
    let vol = if loud < MAX_VOLUME { loud } else { MAX_VOLUME as int };
    if vol > MIN_VOLUME { Some(vol as i64) } else { None }
}

/// The vessel, and the bump volumes played, after resolving contacts with `obstacles`
/// one after the other.
pub open spec fn resolve_all(v: Player, h: Vec2, obstacles: Seq<Circle>) -> (Player, Seq<i64>)
    decreases obstacles.len(),
{
    if obstacles.len() == 0 {
        (v, Seq::empty())
    } else {
        let (u, vols) = resolve_all(v, h, obstacles.drop_last());
        match first_hit(u.head_spec(h), u.left_thruster_spec(h), u.right_thruster_spec(h), obstacles.last()) {
            Some(c) => {
                let imp = reflect_spec(c.normal, u.vel);
                let vols2 = match bump_volume_spec(imp) {
                    Some(x) => vols.push(x),
                    None => vols,
                };
                (resolve_spec(u, c), vols2)
            },
            None => (u, vols),
        }
    }
}

/// Pushes the vessel out of a contact and applies the reflective impulse at the contact
/// point; returns that impulse.
pub fn resolve(v: &mut Player, c: Collision) -> (imp: Vec2)
    requires
        old(v).wf(),
        c.wf(),
    ensures
        final(v).wf(),
        *final(v) == resolve_spec(*old(v), c),
        imp == reflect_spec(c.normal, old(v).vel),
        imp.bounded(),
{
    proof {
        assert(within(c.normal.x * c.penetration, SCALE * 2 * LIMIT)) by (nonlinear_arith)
            requires within(c.normal.x as int, SCALE as int), 0 < c.penetration <= 2 * LIMIT;
        assert(within(c.normal.y * c.penetration, SCALE * 2 * LIMIT)) by (nonlinear_arith)
            requires within(c.normal.y as int, SCALE as int), 0 < c.penetration <= 2 * LIMIT;
        crate::fixed::lemma_div_trunc_bound(c.normal.x * c.penetration, SCALE * 2 * LIMIT);
        crate::fixed::lemma_div_trunc_bound(c.normal.y * c.penetration, SCALE * 2 * LIMIT);
    }
    let px = v.pos.x - div_trunc(c.normal.x * c.penetration, SCALE);
    let py = v.pos.y - div_trunc(c.normal.y * c.penetration, SCALE);
    v.pos = Vec2 { x: px, y: py }.clamped();
    let dd = c.normal.dot(v.vel);
    proof {
        assert(within(dd as int, 2 * SCALE * LIMIT)) by (nonlinear_arith)
            requires
                dd == c.normal.x * v.vel.x + c.normal.y * v.vel.y,
                within(c.normal.x as int, SCALE as int),
                within(c.normal.y as int, SCALE as int),
                within(v.vel.x as int, LIMIT as int),
                within(v.vel.y as int, LIMIT as int);
        crate::fixed::lemma_div_trunc_bound(dd as int, 2 * SCALE * LIMIT);
    }
    let d = div_trunc(dd, SCALE);
    proof {
        assert(within(c.normal.x * d, 2 * SCALE * LIMIT)) by (nonlinear_arith)
            requires within(c.normal.x as int, SCALE as int), within(d as int, 2 * LIMIT);
        assert(within(c.normal.y * d, 2 * SCALE * LIMIT)) by (nonlinear_arith)
            requires within(c.normal.y as int, SCALE as int), within(d as int, 2 * LIMIT);
    }
    let ix = -div_trunc(c.normal.x * d, SCALE);
    let iy = -div_trunc(c.normal.y * d, SCALE);
    let imp = Vec2 { x: ix, y: iy }.clamped();
    v.apply_impulse(imp, c.pos);
    imp
}

/// Volume of the bump sound for `impulse`, if loud enough to be played.
pub fn bump_volume(impulse: Vec2) -> (r: Option<i64>)
    requires
        impulse.bounded(),
    ensures
        r == bump_volume_spec(impulse),
        r matches Some(x) ==> MIN_VOLUME < x <= MAX_VOLUME,
{
    let s = impulse.len();
    proof { lemma_floor_sqrt_unique(s as int, impulse.len_sq_spec()); }
    assert(s < 0x8000_0000) by (nonlinear_arith)
        requires s * s <= impulse.len_sq_spec(), within(impulse.x as int, LIMIT as int),
            within(impulse.y as int, LIMIT as int), s >= 0;
    let loud = s * 3 / 10_000;
    let vol = if loud < MAX_VOLUME { loud } else { MAX_VOLUME };
    if vol > MIN_VOLUME { Some(vol) } else { None }
}

/// The two thruster controls held during a tick.
#[derive(Clone, Copy, PartialEq, Eq, Structural, Debug)]
pub struct Controls {
    pub left: bool,
    pub right: bool,
}

/// The force each thruster pushed with during a tick.
#[derive(Clone, Copy, PartialEq, Eq, Structural, Debug)]
pub struct Thrust {
    pub left: Vec2,
    pub right: Vec2,
}

/// Force of a thruster along heading `h`, or none when it is off.
pub open spec fn force_spec(h: Vec2, on: bool) -> Vec2 {
    if on { Vec2 { x: (h.x * FORCE) as i64, y: (h.y * FORCE) as i64 } } else { Vec2 { x: 0, y: 0 } }
}

/// The impulse of `force` over `dt` microseconds.
pub open spec fn push_spec(force: Vec2, dt: int) -> Vec2 {
    Vec2 {
        x: div_trunc_spec(force.x * dt, SECOND as int) as i64,
        y: div_trunc_spec(force.y * dt, SECOND as int) as i64,
    }
}

/// The vessel after both thrusters have pushed at their circles' centers, left first.
pub open spec fn thrusted_spec(v: Player, h: Vec2, c: Controls, dt: int) -> Player {
    let after_left = impulse_spec(v, push_spec(force_spec(h, c.left), dt), v.left_thruster_spec(h).pos);
    impulse_spec(after_left, push_spec(force_spec(h, c.right), dt), after_left.right_thruster_spec(h).pos)
}

fn force(h: Vec2, on: bool) -> (f: Vec2)
    requires
        heading_ok(h),
    ensures
        f == force_spec(h, on),
        within(f.x as int, FORCE * SCALE),
        within(f.y as int, FORCE * SCALE),
{
    if on { Vec2 { x: h.x * FORCE, y: h.y * FORCE } } else { Vec2 { x: 0, y: 0 } }
}

fn push(f: Vec2, dt: i64) -> (p: Vec2)
    requires
        within(f.x as int, FORCE * SCALE),
        within(f.y as int, FORCE * SCALE),
        0 <= dt <= MAX_TICK,
    ensures
        p == push_spec(f, dt as int),
        p.bounded(),
{
    proof {
        assert(within(f.x * dt, FORCE * SCALE * MAX_TICK)) by (nonlinear_arith)
            requires within(f.x as int, FORCE * SCALE), 0 <= dt <= MAX_TICK;
        assert(within(f.y * dt, FORCE * SCALE * MAX_TICK)) by (nonlinear_arith)
            requires within(f.y as int, FORCE * SCALE), 0 <= dt <= MAX_TICK;
        lemma_div_second_bound(f.x * dt);
        lemma_div_second_bound(f.y * dt);
    }
    Vec2 { x: div_trunc(f.x * dt, SECOND), y: div_trunc(f.y * dt, SECOND) }
}

proof fn lemma_div_second_bound(a: int)
    requires
        within(a, FORCE * SCALE * MAX_TICK),
    ensures
        within(div_trunc_spec(a, SECOND as int), LIMIT as int),
{
    if a >= 0 {
        assert(a / SECOND as int <= LIMIT) by (nonlinear_arith) requires 0 <= a <= FORCE * SCALE * MAX_TICK;
    } else {
        assert((-a) / SECOND as int <= LIMIT) by (nonlinear_arith) requires 0 <= -a <= FORCE * SCALE * MAX_TICK;
    }
}

/// Whether the thruster sound plays: the two forces together exceed one unit
/// (each force's magnitude rounded down).
pub open spec fn thruster_sound_spec(t: Thrust) -> bool {
    floor_sqrt(t.left.len_sq_spec()) + floor_sqrt(t.right.len_sq_spec()) > SCALE
}

/// Whether the thruster sound plays for the forces of a tick.
pub fn thruster_sound(t: Thrust) -> (on: bool)
    requires
        t.left.bounded(),
        t.right.bounded(),
    ensures
        on == thruster_sound_spec(t),
{
    let l = t.left.len();
    let r = t.right.len();
    proof {
        lemma_floor_sqrt_unique(l as int, t.left.len_sq_spec());
        lemma_floor_sqrt_unique(r as int, t.right.len_sq_spec());
    }
    assert(l < 0x8000_0000 && r < 0x8000_0000) by (nonlinear_arith)
        requires l * l <= t.left.len_sq_spec(), r * r <= t.right.len_sq_spec(),
            t.left.bounded(), t.right.bounded(), l >= 0, r >= 0;
    l + r > SCALE
}

/// The exhaust of the player after a tick's move, along heading `h`.
pub open spec fn exhaust_spec(p: Player, h: Vec2, thrust: Thrust, jitters: Vec<Vec2>) -> Exhaust {
    Exhaust {
        left_tube: attach_spec(p.pos, Vec2 { x: 400_000, y: 1_000_000 }, h),
        right_tube: attach_spec(p.pos, Vec2 { x: 400_000, y: -1_000_000i64 }, h),
        left_force: thrust.left,
        right_force: thrust.right,
        vessel_vel: p.vel,
        jitters,
    }
}

/// The whole simulated world: vessel, track, exhaust, view, laps and play time.
pub struct Game {
    /// Play time in microseconds.
    pub t: i64,
    pub player: Player,
    pub obstacles: Vec<Circle>,
    pub background: Vec<Vec2>,
    pub particles: ParticlePool,
    pub camera: Camera,
    pub laps: LapState,
}

impl Game {
    pub open spec fn wf(self) -> bool {
        &&& self.t >= 0
        &&& self.player.wf()
        &&& forall|i: int| 0 <= i < self.obstacles@.len() ==> (#[trigger] self.obstacles@[i]).wf()
        &&& self.particles.wf()
        &&& self.camera.wf()
        &&& self.laps.lap_timer >= 0
    }

    /// A session on the given track: the vessel at rest midway between the walls on the
    /// positive x axis, no particles, the camera at its base field of view, no laps yet.
    pub fn new(obstacles: Vec<Circle>, background: Vec<Vec2>) -> (s: Game)
        requires
            forall|i: int| 0 <= i < obstacles@.len() ==> (#[trigger] obstacles@[i]).wf(),
        ensures
            s.wf(),
            s.t == 0,
            s.obstacles@ == obstacles@,
            s.background@ == background@,
            s.player == Player::new_spec((Vec2 { x: ((INNER + OUTER) / 2) as i64, y: 0 })),
            s.particles.particles@.len() == 0,
            s.particles.next_spawn == 0,
            s.camera.pos == (Vec2 { x: 0, y: 0 }),
            s.camera.fov == BASE_FOV,
            s.laps.laps == 0 && s.laps.lap_timer == 0 && s.laps.best.is_none(),
    {
        Game {
            t: 0,
            player: Player::new(Vec2 { x: (INNER + OUTER) / 2, y: 0 }),
            obstacles,
            background,
            particles: ParticlePool::new(),
            camera: Camera::new(BASE_FOV),
            laps: LapState::new(),
        }
    }

    /// First half of a tick of `dt` microseconds, with `h` the vessel's heading: the
    /// camera follows, the held thrusters push, the vessel moves, and a crossing of the
    /// start line updates the laps. Returns the thrusters' forces.
    pub fn begin_tick(&mut self, dt: i64, controls: Controls, h: Vec2) -> (thrust: Thrust)
        requires
            old(self).wf(),
            0 <= dt <= MAX_TICK,
            heading_ok(h),
        ensures
            final(self).wf(),
            final(self).t == sat_add(old(self).t as int, dt as int),
            thrust == (Thrust { left: force_spec(h, controls.left), right: force_spec(h, controls.right) }),
            final(self).player == update_spec(thrusted_spec(old(self).player, h, controls, dt as int), dt as int),
            final(self).laps == record_spec(
                LapState { lap_timer: sat_add(old(self).laps.lap_timer as int, dt as int) as i64, ..old(self).laps },
                transition_spec(sample_of_position_spec(old(self).player.pos), sample_of_position_spec(final(self).player.pos))),
            final(self).camera == camera_update_spec(
                follow_spec(old(self).camera, old(self).player.pos, old(self).player.vel), dt as int),
            final(self).obstacles@ == old(self).obstacles@,
            final(self).background@ == old(self).background@,
            final(self).particles == old(self).particles,
    {
        self.t = if self.t > i64::MAX - dt { i64::MAX } else { self.t + dt };
        self.camera.follow(self.player.pos, self.player.vel);
        self.camera.update(dt);
        let left = self.player.left_thruster(h);
        let lf = force(h, controls.left);
        self.player.apply_impulse(push(lf, dt), left.pos);
        let right = self.player.right_thruster(h);
        let rf = force(h, controls.right);
        self.player.apply_impulse(push(rf, dt), right.pos);
        let last = sample_of_position(self.player.pos);
        self.player.update(dt);
        let now = sample_of_position(self.player.pos);
        self.laps.tick(dt);
        self.laps.record(transition(last, now));
        Thrust { left: lf, right: rf }
    }

    /// Second half of a tick, with `h` the heading after the move: contacts with the
    /// obstacles are resolved in order, then the exhaust emits and ages. Returns the
    /// volumes of the bumps to play, in thousandths. `jitters` are random velocity
    /// offsets for new particles, used in turn.
    pub fn end_tick(&mut self, dt: i64, h: Vec2, thrust: Thrust, jitters: Vec<Vec2>) -> (vols: Vec<i64>)
        requires
            old(self).wf(),
            0 <= dt <= MAX_TICK,
            heading_ok(h),
            within(thrust.left.x as int, FORCE * SCALE),
            within(thrust.left.y as int, FORCE * SCALE),
            within(thrust.right.x as int, FORCE * SCALE),
            within(thrust.right.y as int, FORCE * SCALE),
            jitters@.len() > 0,
            forall|i: int| 0 <= i < jitters@.len() ==> {
                within(#[trigger] jitters@[i].x as int, JITTER as int)
                && within(jitters@[i].y as int, JITTER as int)
            },
        ensures
            final(self).wf(),
            (final(self).player, vols@) == resolve_all(old(self).player, h, old(self).obstacles@),
            final(self).t == old(self).t,
            final(self).laps == old(self).laps,
            final(self).camera == old(self).camera,
            final(self).obstacles@ == old(self).obstacles@,
            final(self).background@ == old(self).background@,
            final(self).particles.next_spawn == next_acc_spec(old(self).particles.next_spawn as int, dt as int),
            final(self).particles.particles@ == survivors(
                emit_spec(old(self).particles.particles@, exhaust_spec(final(self).player, h, thrust, jitters),
                    old(self).particles.next_spawn as int, dt as int), dt as int),
    {
        let mut vols: Vec<i64> = Vec::new();
        let mut i: usize = 0;
        while i < self.obstacles.len()
            invariant
                self.wf(),
                heading_ok(h),
                self.obstacles@ == old(self).obstacles@,
                self.background@ == old(self).background@,
                self.t == old(self).t,
                self.laps == old(self).laps,
                self.camera == old(self).camera,
                self.particles == old(self).particles,
                i <= self.obstacles@.len(),
                (self.player, vols@) == resolve_all(old(self).player, h, self.obstacles@.take(i as int)),
            decreases self.obstacles@.len() - i,
        {
            assert(self.obstacles@.take(i + 1).drop_last() == self.obstacles@.take(i as int));
            assert(self.obstacles@.take(i + 1).last() == self.obstacles@[i as int]);
            let ob = self.obstacles[i];
            assert(ob.wf());
            let hit = self.player.collide(h, &ob);
            if let Some(c) = hit {
                let imp = resolve(&mut self.player, c);
                if let Some(x) = bump_volume(imp) {
                    vols.push(x);
                }
            }
            i = i + 1;
        }
        assert(self.obstacles@.take(i as int) == self.obstacles@);
        let ghost js = jitters@;
        let ex = Exhaust {
            left_tube: self.player.left_thruster_tube(h),
            right_tube: self.player.right_thruster_tube(h),
            left_force: thrust.left,
            right_force: thrust.right,
            vessel_vel: self.player.vel,
            jitters,
        };
        assert(ex.jitters@ == js);
        assert forall|i: int| 0 <= i < ex.jitters@.len() implies {
            within(#[trigger] ex.jitters@[i].x as int, JITTER as int)
            && within(ex.jitters@[i].y as int, JITTER as int)
        } by {
            assert(ex.jitters@[i] == jitters@[i]);
        }
        assert(ex.wf());
        self.particles.emit(dt, &ex);
        self.particles.advance(dt);
        vols
    }
}

} // verus!
