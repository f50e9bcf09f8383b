//! Integer block coordinates of footholds.

use vstd::prelude::*;

verus! {

/// A block position in the world grid.
#[derive(Clone, Copy, Debug, PartialEq, Eq, Structural)]
pub struct BlockPos {
    pub x: i32,
    pub y: i32,
    pub z: i32,
}

/// Block material of a generated foothold.
#[derive(Clone, Copy, Debug, PartialEq, Eq, Structural)]
pub enum Material {
    Obsidian,
}

/// Altitude that generated paths are pulled back to.
pub const BASELINE_Y: i32 = 100;

/// A run ends once the player is more than this far below the baseline.
pub const FALL_DEPTH: i32 = 32;

/// The foothold every run starts on.
pub open spec fn spawn_pos() -> BlockPos {
    BlockPos { x: 0, y: BASELINE_Y, z: 0 }
}

/// Gives [`spawn_pos`].
pub fn spawn_block() -> (pos: BlockPos)
    ensures
        pos == spawn_pos(),
{
    BlockPos { x: 0, y: BASELINE_Y, z: 0 }
}

/// Whether a player whose feet are at block altitude `y` has fallen out of the run.
pub fn fell_out(y: i32) -> (out: bool)
    ensures
        out == (y < BASELINE_Y - FALL_DEPTH),
{
    y < BASELINE_Y - FALL_DEPTH
}

} // verus!
