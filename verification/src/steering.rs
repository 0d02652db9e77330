//! Steering model: a ship's wheel accumulates turning input as a bounded
//! angle.  The bound is three full turns either way, so the wheel can "wind
//! up" well past a single rotation; locomotion later divides the angle down
//! into a turning torque.

use vstd::prelude::*;

verus! {

/// Fixed-point quarter turn: pi over two, in microradians.
pub const HALF_PI_URAD: i64 = 1570796;

/// Fixed-point half turn: pi in microradians.
pub const PI_URAD: i64 = 2 * HALF_PI_URAD;

/// Fixed-point full turn: two half turns.
pub const TAU_URAD: i64 = 2 * PI_URAD;

/// The wheel angle is clamped to three full turns either way.
pub const STEERING_LIMIT_URAD: i64 = 3 * TAU_URAD;

/// What every wheel mutation does to the angle: add, then clamp into
/// `[-STEERING_LIMIT_URAD, STEERING_LIMIT_URAD]`.
pub open spec fn clamp_angle(a: int) -> int {
    if a > STEERING_LIMIT_URAD {
        STEERING_LIMIT_URAD as int
    } else if a < -STEERING_LIMIT_URAD {
        -STEERING_LIMIT_URAD as int
    } else {
        a
    }
}

/// The angle a wheel holds after a whole sequence of turns, starting
/// from `start`.
pub open spec fn run_turns(start: int, deltas: Seq<int>) -> int
    decreases deltas.len(),
{
    if deltas.len() == 0 {
        start
    } else {
        run_turns(clamp_angle(start + deltas[0]), deltas.drop_first())
    }
}

/// A ship's steering wheel: the accumulated turning input, in microradians.
#[derive(Clone, Copy, Debug, PartialEq, Eq, Structural)]
pub struct SteeringWheel {
    pub angle_urad: i64,
}

impl SteeringWheel {
    /// The wheel angle never leaves its clamp bound.
    pub open spec fn wf(self) -> bool {
        -STEERING_LIMIT_URAD <= self.angle_urad <= STEERING_LIMIT_URAD
    }

    /// A fresh wheel is centered.
    pub fn new() -> (w: SteeringWheel)
        ensures
            w.angle_urad == 0,
            w.wf(),
    {
        SteeringWheel { angle_urad: 0 }
    }

    /// Add `delta_urad` to the wheel angle and clamp the result.  This is
    /// the only incremental mutation path of the angle.
    pub fn turn(&mut self, delta_urad: i64)
        requires
            old(self).wf(),
        ensures
            final(self).wf(),
            final(self).angle_urad == clamp_angle(old(self).angle_urad + delta_urad),
    {
        let sum: i128 = self.angle_urad as i128 + delta_urad as i128;
        if sum > STEERING_LIMIT_URAD as i128 {
            self.angle_urad = STEERING_LIMIT_URAD;
        } else if sum < -STEERING_LIMIT_URAD as i128 {
            self.angle_urad = -STEERING_LIMIT_URAD;
        } else {
            self.angle_urad = sum as i64;
        }
    }

    /// Overwrite the wheel angle outright (the AI's mutation path), still
    /// clamped into the bound.
    pub fn set(&mut self, angle_urad: i64)
        ensures
            final(self).wf(),
            final(self).angle_urad == clamp_angle(angle_urad as int),
    {
        if angle_urad > STEERING_LIMIT_URAD {
            self.angle_urad = STEERING_LIMIT_URAD;
        } else if angle_urad < -STEERING_LIMIT_URAD {
            self.angle_urad = -STEERING_LIMIT_URAD;
        } else {
            self.angle_urad = angle_urad;
        }
    }
}

/// Law: a wheel that starts within its bound stays within `[-6 pi, 6 pi]`
/// (in microradians) over every sequence of turns.
pub proof fn lemma_turn_sequence_bounded(start: int, deltas: Seq<int>)
    requires
        -STEERING_LIMIT_URAD <= start <= STEERING_LIMIT_URAD,
    ensures
        -STEERING_LIMIT_URAD <= run_turns(start, deltas) <= STEERING_LIMIT_URAD,
    decreases deltas.len(),
{
    if deltas.len() > 0 {
        lemma_turn_sequence_bounded(clamp_angle(start + deltas[0]), deltas.drop_first());
    }
}

/// The player input handler tracks the stick direction as an absolute angle
/// in `[-pi, pi]` and feeds the wheel the change since the last sample.
/// When the direction crosses the half-turn boundary the raw difference
/// jumps by a full turn; fold it back so the wheel turns the short way.
pub open spec fn wrapped_delta(prev: int, next: int) -> int {
    let d = next - prev;
    if d > PI_URAD {
        d - TAU_URAD
    } else if d < -PI_URAD {
        d + TAU_URAD
    } else {
        d
    }
}

/// Executable form of `wrapped_delta`, for angles read off the stick.
pub fn steering_delta(prev_urad: i64, next_urad: i64) -> (delta: i64)
    requires
        -PI_URAD <= prev_urad <= PI_URAD,
        -PI_URAD <= next_urad <= PI_URAD,
    ensures
        delta == wrapped_delta(prev_urad as int, next_urad as int),
        -PI_URAD <= delta <= PI_URAD,
{
    let d: i64 = next_urad - prev_urad;
    if d > PI_URAD {
        d - TAU_URAD
    } else if d < -PI_URAD {
        d + TAU_URAD
    } else {
        d
    }
}

/// The stick only issues a new direction when pushed past half deflection
/// on either axis; inside that deadzone the previous direction holds.
pub fn stick_active(x_milli: i64, y_milli: i64) -> (active: bool)
    ensures
        active == (x_milli > 500 || x_milli < -500 || y_milli > 500 || y_milli < -500),
{
    x_milli > 500 || x_milli < -500 || y_milli > 500 || y_milli < -500
}

} // verus!
