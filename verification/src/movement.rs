//! Movement samples of a run and the recorder that collects them.

use vstd::prelude::*;

verus! {

/// One sampled pose of a player.
///
/// The coordinates and angles are real numbers carried as their IEEE-754 bit
/// patterns (`x`, `y`, `z` of 64 bits, `yaw` and `pitch` of 32 bits): they are
/// stored and handed back unchanged, never computed with.
#[derive(Clone, Copy, Debug, PartialEq, Eq, Structural)]
pub struct MovementSample {
    pub x: u64,
    pub y: u64,
    pub z: u64,
    pub yaw: u32,
    pub pitch: u32,
    /// Milliseconds since recording started.
    pub timestamp: u128,
}

/// Milliseconds from `since` to `now`; a clock that ran backwards counts as
/// no time passed.
pub open spec fn elapsed_ms(since: u128, now: u128) -> u128 {
    if now >= since {
        (now - since) as u128
    } else {
        0
    }
}

/// Computes [`elapsed_ms`].
pub fn elapsed_since(since: u128, now: u128) -> (ms: u128)
    ensures
        ms == elapsed_ms(since, now),
{
    if now >= since {
        now - since
    } else {
        0
    }
}

/// Collects the trajectory of one run while its timing is active.
pub struct MovementRecorder {
    /// The samples taken so far, oldest first.
    pub samples: Vec<MovementSample>,
    /// Wall-clock time, in milliseconds, that sample timestamps count from.
    pub start_time: u128,
    /// Whether samples are being taken.
    pub active: bool,
}

impl MovementRecorder {
    /// An idle recorder with an empty log, created at time `now`.
    pub fn new(now: u128) -> (rec: MovementRecorder)
        ensures
            rec.samples@ == Seq::<MovementSample>::empty(),
            rec.start_time == now,
            !rec.active,
    {
        MovementRecorder { samples: Vec::new(), start_time: now, active: false }
    }

    /// Starts recording: timestamps count from `now` on. The log is kept.
    pub fn start(&mut self, now: u128)
        ensures
            final(self).active,
            final(self).start_time == now,
            final(self).samples@ == old(self).samples@,
    {
        self.active = true;
        self.start_time = now;
    }

    /// The sample that `sample` appends for a pose seen at time `now`.
    pub open spec fn stamped(
        &self,
        x: u64,
        y: u64,
        z: u64,
        yaw: u32,
        pitch: u32,
        now: u128,
    ) -> MovementSample {
        MovementSample { x, y, z, yaw, pitch, timestamp: elapsed_ms(self.start_time, now) }
    }

    /// Appends one pose, stamped with the time since recording started, if
    /// recording is active; does nothing otherwise.
    pub fn sample(&mut self, x: u64, y: u64, z: u64, yaw: u32, pitch: u32, now: u128)
        ensures
            final(self).active == old(self).active,
            final(self).start_time == old(self).start_time,
            old(self).active ==> final(self).samples@ == old(self).samples@.push(
                old(self).stamped(x, y, z, yaw, pitch, now),
            ),
            !old(self).active ==> final(self).samples@ == old(self).samples@,
    {
        if self.active {
            let timestamp: u128 = elapsed_since(self.start_time, now);
            self.samples.push(MovementSample { x, y, z, yaw, pitch, timestamp });
        }
    }
}

} // verus!
