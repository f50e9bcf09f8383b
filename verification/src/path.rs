//! The foothold path generator: one step of the path from the last foothold,
//! the vertical bias and the run's random stream.

use crate::geometry::{BlockPos, BASELINE_Y};
use crate::stream::{draw_range, range_draw, stream_state};
use rand::rngs::StdRng;
use vstd::prelude::*;

verus! {

/// Vertical drift policy of the generator.
#[derive(Clone, Copy, Debug, PartialEq, Eq, Structural)]
pub enum BiasMode {
    /// Steps up, level or down are equally likely.
    Neutral,
    /// Every step moves toward the baseline altitude.
    ReturnToBaseline,
}

/// How far from the baseline a foothold may lie before the path is pulled back.
pub const MAX_DRIFT: i32 = 30;

/// Largest lateral offset of one step, in either direction.
pub const MAX_SIDE_STEP: i32 = 3;

/// Largest depth offset of one step.
pub const MAX_DEPTH_STEP: i32 = 4;

/// One step of the path: the three offsets from the last foothold, and the
/// state the stream is left in.
pub struct Step {
    pub dx: int,
    pub dy: int,
    pub dz: int,
    pub state: nat,
}

/// The vertical offset taken from `last` under `bias` with the stream in
/// `state`, and the state after it: drawn from {-1, 0, 1} under a neutral
/// bias, forced toward the baseline without a draw otherwise.
pub open spec fn vertical_draw(state: nat, last: BlockPos, bias: BiasMode) -> (int, nat) {
    match bias {
        BiasMode::Neutral => range_draw(state, -1, 2),
        BiasMode::ReturnToBaseline => (
            if BASELINE_Y > last.y {
                1
            } else {
                -1
            },
            state,
        ),
    }
}

/// Inclusive lower end of the depth range that goes with a vertical offset.
pub open spec fn depth_low(dy: int) -> int {
    if dy == -1 {
        2
    } else {
        1
    }
}

/// Exclusive upper end of the depth range that goes with a vertical offset.
pub open spec fn depth_high(dy: int) -> int {
    if dy == 1 {
        3
    } else if dy == -1 {
        5
    } else {
        4
    }
}

/// The step taken from `last` under `bias` with the stream in `state`: the
/// vertical offset first, then the depth offset from the range that goes with
/// it, then the lateral offset from -3..=3.
pub open spec fn step_from(state: nat, last: BlockPos, bias: BiasMode) -> Step {
    let vertical = vertical_draw(state, last, bias);
    let depth = range_draw(vertical.1, depth_low(vertical.0), depth_high(vertical.0));
    let side = range_draw(depth.1, -3, 4);
    Step { dx: side.0, dy: vertical.0, dz: depth.0, state: side.1 }
}

/// Whether one more step from `last` stays inside the coordinate type.
pub open spec fn step_fits(last: BlockPos) -> bool {
    &&& i32::MIN + MAX_SIDE_STEP <= last.x <= i32::MAX - MAX_SIDE_STEP
    &&& i32::MIN + 1 <= last.y <= i32::MAX - 1
    &&& last.z <= i32::MAX - MAX_DEPTH_STEP
}

/// The bias in force after a foothold was generated from `last`.
pub open spec fn bias_after(last: BlockPos, bias: BiasMode) -> BiasMode {
    if last.y == BASELINE_Y {
        BiasMode::Neutral
    } else if last.y < BASELINE_Y - MAX_DRIFT || last.y > BASELINE_Y + MAX_DRIFT {
        BiasMode::ReturnToBaseline
    } else {
        bias
    }
}

/// The vertical offset that `bias` forces from `last`, if it forces one:
/// none under a neutral bias, one step toward the baseline otherwise.
pub fn forced_dy(last: BlockPos, bias: BiasMode) -> (dy: Option<i32>)
    ensures
        dy == (match bias {
            BiasMode::Neutral => None::<i32>,
            BiasMode::ReturnToBaseline => Some(if BASELINE_Y > last.y { 1i32 } else { -1i32 }),
        }),
{
    match bias {
        BiasMode::Neutral => None,
        BiasMode::ReturnToBaseline => if BASELINE_Y > last.y {
            Some(1)
        } else {
            Some(-1)
        },
    }
}

/// The half-open range that the depth offset is drawn from after a vertical
/// offset of `dy`: short after a step up, long after a step down.
pub fn depth_range(dy: i32) -> (range: (i32, i32))
    ensures
        range.0 == depth_low(dy as int),
        range.1 == depth_high(dy as int),
        1 <= range.0 < range.1 <= MAX_DEPTH_STEP + 1,
{
    if dy == 1 {
        (1, 3)
    } else if dy == -1 {
        (2, 5)
    } else {
        (1, 4)
    }
}

/// The foothold at the given offsets from `last`.
pub fn offset_from(last: BlockPos, dx: i32, dy: i32, dz: i32) -> (pos: BlockPos)
    requires
        step_fits(last),
        -MAX_SIDE_STEP <= dx <= MAX_SIDE_STEP,
        -1 <= dy <= 1,
        0 <= dz <= MAX_DEPTH_STEP,
    ensures
        pos.x == last.x + dx,
        pos.y == last.y + dy,
        pos.z == last.z + dz,
{
    BlockPos { x: last.x + dx, y: last.y + dy, z: last.z + dz }
}

/// Generates the foothold that follows `last`.
///
/// The result is `last` moved by the step that [`step_from`] gives for the
/// stream's state, so it is a function of that state, `last` and `bias`.
pub fn next_foothold(last: BlockPos, bias: BiasMode, rng: &mut StdRng) -> (pos: BlockPos)
    requires
        step_fits(last),
    ensures
        pos.x == last.x + step_from(stream_state(*old(rng)), last, bias).dx,
        pos.y == last.y + step_from(stream_state(*old(rng)), last, bias).dy,
        pos.z == last.z + step_from(stream_state(*old(rng)), last, bias).dz,
        stream_state(*final(rng)) == step_from(stream_state(*old(rng)), last, bias).state,
        -MAX_SIDE_STEP <= pos.x - last.x <= MAX_SIDE_STEP,
        -1 <= pos.y - last.y <= 1,
        1 <= pos.z - last.z <= MAX_DEPTH_STEP,
        bias == BiasMode::ReturnToBaseline ==> pos.y - last.y == (if BASELINE_Y > last.y {
            1int
        } else {
            -1int
        }),
        pos.y - last.y == 1 ==> pos.z - last.z <= 2,
        pos.y - last.y == -1 ==> pos.z - last.z >= 2,
        pos.y - last.y == 0 ==> pos.z - last.z <= 3,
{
    let dy: i32 = match forced_dy(last, bias) {
        Some(forced) => forced,
        None => draw_range(rng, -1, 2),
    };
    let range: (i32, i32) = depth_range(dy);
    let dz: i32 = draw_range(rng, range.0, range.1);
    let dx: i32 = draw_range(rng, -MAX_SIDE_STEP, MAX_SIDE_STEP + 1);
    offset_from(last, dx, dy, dz)
}

/// Two streams in the same state give the same step from the same foothold
/// under the same bias, and are left in the same state.
pub proof fn lemma_next_is_determined(a: StdRng, b: StdRng, last: BlockPos, bias: BiasMode)
    requires
        stream_state(a) == stream_state(b),
    ensures
        step_from(stream_state(a), last, bias) == step_from(stream_state(b), last, bias),
{
}

/// Moves the bias on after a foothold was generated from `last`: back to
/// neutral at the baseline, toward the baseline beyond the allowed drift.
pub fn next_bias(last: BlockPos, bias: BiasMode) -> (next: BiasMode)
    ensures
        next == bias_after(last, bias),
{
    if last.y == BASELINE_Y {
        BiasMode::Neutral
    } else if last.y < BASELINE_Y - MAX_DRIFT || last.y > BASELINE_Y + MAX_DRIFT {
        BiasMode::ReturnToBaseline
    } else {
        bias
    }
}

} // verus!
