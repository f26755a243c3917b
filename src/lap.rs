use vstd::prelude::*;
use crate::fixed::Vec2;

verus! {

/// One radian in microradians: crossings count only this close to the start line.
pub const GATE: i64 = 1_000_000;


/// The tangent of one radian is close to `TAN_GATE_NUM / TAN_GATE_DEN`: positions are tested against it.
pub const TAN_GATE_NUM: i64 = 15_574_077;
pub const TAN_GATE_DEN: i64 = 10_000_000;

/// Which side of the start line an angular position lies on.
#[derive(Clone, Copy, PartialEq, Eq, Structural, Debug)]
pub enum Side {
    /// Angle in `(-pi, 0)`.
    Negative,
    /// Angle in `[0, pi]`.
    NonNegative,
}

/// The lap machine's view of the vessel's angular position around the track center.
#[derive(Clone, Copy, PartialEq, Eq, Structural, Debug)]
pub struct AngleSample {
    pub side: Side,
    /// Within one radian of the start line.
    pub near_start: bool,
}

/// What one tick's pair of samples means for the lap count.
#[derive(Clone, Copy, PartialEq, Eq, Structural, Debug)]
pub enum LapEvent {
    NoCrossing,
    /// Crossed from negative to non-negative angles: one lap more.
    Completed,
    /// Crossed back from non-negative to negative angles: one lap less.
    Reversed,
}

pub open spec fn sample_of_angle_spec(a: int) -> AngleSample {
    AngleSample {
        side: if a < 0 { Side::Negative } else { Side::NonNegative },
        near_start: -GATE < a < GATE,
    }
}

/// Samples an angle given in microradians.
pub fn sample_of_angle(a: i64) -> (s: AngleSample)
    ensures
        s == sample_of_angle_spec(a as int),
{
    AngleSample {
        side: if a < 0 { Side::Negative } else { Side::NonNegative },
        near_start: -GATE < a && a < GATE,
    }
}

pub open spec fn sample_of_position_spec(p: Vec2) -> AngleSample {
    AngleSample {
        side: if p.y < 0 { Side::Negative } else { Side::NonNegative },
        near_start: p.x > 0 && p.y * TAN_GATE_DEN < TAN_GATE_NUM * p.x
            && -(p.y * TAN_GATE_DEN) < TAN_GATE_NUM * p.x,
    }
}

/// Samples the angular position of `p` around the origin, without computing the angle:
/// the angle is negative exactly when `y < 0`, and within one radian of zero exactly
/// when `x > 0` and `|y| < tan(1) * x`.
pub fn sample_of_position(p: Vec2) -> (s: AngleSample)
    requires
        p.bounded(),
    ensures
        s == sample_of_position_spec(p),
{
    AngleSample {
        side: if p.y < 0 { Side::Negative } else { Side::NonNegative },
        near_start: p.x > 0 && p.y * TAN_GATE_DEN < TAN_GATE_NUM * p.x
            && -(p.y * TAN_GATE_DEN) < TAN_GATE_NUM * p.x,
    }
}

pub open spec fn transition_spec(last: AngleSample, now: AngleSample) -> LapEvent {
    if last.near_start && now.near_start && last.side == Side::Negative && now.side == Side::NonNegative {
        LapEvent::Completed
    } else if last.near_start && now.near_start && last.side == Side::NonNegative && now.side == Side::Negative {
        LapEvent::Reversed
    } else {
        LapEvent::NoCrossing
    }
}

/// The transition table of the lap machine: a sign change of the angular position
/// counts only when both samples lie within one radian of the start line.
/// A lap is completed only from a strictly negative angle to a non-negative one: an
/// angle of exactly zero counts as non-negative, so a vessel resting on the line (zero
/// then zero) completes no lap on every tick, and leaving zero backwards is a reversal.
pub fn transition(last: AngleSample, now: AngleSample) -> (e: LapEvent)
    ensures
        e == transition_spec(last, now),
{
    if last.near_start && now.near_start {
        match (last.side, now.side) {
            (Side::Negative, Side::NonNegative) => LapEvent::Completed,
            (Side::NonNegative, Side::Negative) => LapEvent::Reversed,
            _ => LapEvent::NoCrossing,
        }
    } else {
        LapEvent::NoCrossing
    }
}

/// Laps done, time on the current lap and the best lap time, in microseconds.
#[derive(Clone, Copy, PartialEq, Eq, Structural, Debug)]
pub struct LapState {
    pub laps: i64,
    pub lap_timer: i64,
    pub best: Option<i64>,
}

pub open spec fn sat_add(a: int, b: int) -> int {
    if a + b > i64::MAX { i64::MAX as int } else { a + b }
}

pub open spec fn record_spec(s: LapState, e: LapEvent) -> LapState {
    match e {
        LapEvent::Completed => LapState {
            laps: sat_add(s.laps as int, 1) as i64,
            lap_timer: 0,
            best: match s.best {
                Some(b) => if s.lap_timer < b { Some(s.lap_timer) } else { Some(b) },
                None => Some(s.lap_timer),
            },
        },
        LapEvent::Reversed => LapState {
            laps: if s.laps > i64::MIN { (s.laps - 1) as i64 } else { s.laps },
            ..s
        },
        LapEvent::NoCrossing => s,
    }
}

impl LapState {
    /// No laps, timer at zero, no best lap yet.
    pub fn new() -> (s: LapState)
        ensures
            s.laps == 0 && s.lap_timer == 0 && s.best.is_none(),
    {
        LapState { laps: 0, lap_timer: 0, best: None }
    }

    /// Runs the lap timer for `dt` microseconds (it stops at the largest `i64`).
    pub fn tick(&mut self, dt: i64)
        requires
            old(self).lap_timer >= 0,
            dt >= 0,
        ensures
            final(self).lap_timer == sat_add(old(self).lap_timer as int, dt as int),
            final(self).laps == old(self).laps,
            final(self).best == old(self).best,
    {
        self.lap_timer = if self.lap_timer > i64::MAX - dt { i64::MAX } else { self.lap_timer + dt };
    }

    /// Applies a lap event. A completed lap counts one more lap, restarts the timer and
    /// keeps the shorter of the stored best and the finished lap; a reversal counts one less.
    /// The counter saturates at the ends of `i64`.
    pub fn record(&mut self, e: LapEvent)
        ensures
            *final(self) == record_spec(*old(self), e),
    {
        match e {
            LapEvent::Completed => {
                self.best = match self.best {
                    Some(b) => if self.lap_timer < b { Some(self.lap_timer) } else { Some(b) },
                    None => Some(self.lap_timer),
                };
                if self.laps < i64::MAX {
                    self.laps = self.laps + 1;
                }
                self.lap_timer = 0;
            },
            LapEvent::Reversed => {
                if self.laps > i64::MIN {
                    self.laps = self.laps - 1;
                }
            },
            LapEvent::NoCrossing => {},
        }
    }
}

/// Whole minutes and the remaining whole seconds of a time in microseconds, as the
/// overlay shows lap times.
pub fn minutes_seconds(t: i64) -> (r: (i64, i64))
    requires
        t >= 0,
    ensures
        r.0 == t / 60_000_000,
        r.1 == (t / 1_000_000) % 60,
{
    let secs = t / 1_000_000;
    assert(secs / 60 == t / 60_000_000) by {
        vstd::arithmetic::div_mod::lemma_div_denominator(t as int, 1_000_000, 60);
    }
    (secs / 60, secs % 60)
}

/// Moving from an angle in `(-1, 0)` radians to one in `[0, 1)` completes a lap:
/// the counter goes up by one and the lap timer restarts at zero. The same move
/// backwards takes one lap off and leaves the timer running.
pub proof fn lemma_crossing_counts(s: LapState, before: int, after: int)
    requires
        -GATE < before < 0,
        0 <= after < GATE,
        i64::MIN < s.laps < i64::MAX,
    ensures
        transition_spec(sample_of_angle_spec(before), sample_of_angle_spec(after)) == LapEvent::Completed,
        record_spec(s, LapEvent::Completed).laps == s.laps + 1,
        record_spec(s, LapEvent::Completed).lap_timer == 0,
        transition_spec(sample_of_angle_spec(after), sample_of_angle_spec(before)) == LapEvent::Reversed,
        record_spec(s, LapEvent::Reversed).laps == s.laps - 1,
        record_spec(s, LapEvent::Reversed).lap_timer == s.lap_timer,
{
}

} // verus!
