//! Simulation core of an endless procedural parkour game.
//!
//! A player walks along a path of floating footholds that is generated ahead
//! of them from a seeded random stream, and may race the replay of the best
//! run ever recorded. The crate computes what the simulation produces and
//! when; drawing it into a world, clocks and storage are the host's part.
//!
//! - [`stream`]: the seeded random stream, and what is taken on trust of it.
//! - [`path`]: one step of the path generator and the vertical bias rule.
//! - [`run`]: a player's run, with the sliding window, score and combo.
//! - [`movement`]: movement samples and the recorder of a run's trajectory.
//! - [`replay`]: time-indexed playback of a recorded trajectory.
//! - [`board`], [`ranking`], [`leaderboard`]: best scores, their ranking, the
//!   global record, and the decision when a snapshot is to be saved.
//! - [`session`]: a player's run and replay together, tick by tick.

pub mod board;
pub mod geometry;
pub mod leaderboard;
pub mod movement;
pub mod path;
pub mod ranking;
pub mod replay;
pub mod run;
pub mod session;
pub mod stream;
