//! Playback of a recorded run beside a challenger: which samples the replay
//! is between at a given moment, and how far along.

use crate::movement::{elapsed_ms, elapsed_since, MovementSample};
use vstd::prelude::*;

verus! {

/// What a replay shows after an update.
#[derive(Clone, Copy, Debug, PartialEq, Eq, Structural)]
pub enum GhostFrame {
    /// The challenger has not scored yet: the replay stays at its first pose.
    Waiting,
    /// The log has nothing to show: the replay is over and is to be removed.
    Finished,
    /// The replay rests on the last sample.
    Hold { at: MovementSample },
    /// The replay is `numer / denom` of the way from `from` to `to`,
    /// with `0 <= numer <= denom` and `denom > 0`.
    Between { from: MovementSample, to: MovementSample, numer: u128, denom: u128 },
}

/// Numerator of the fraction of the way from a sample taken at `cur` to one
/// taken at `next` that has passed at `elapsed`: the quotient
/// `(elapsed - cur) / (next - cur)` held to the range from 0 to 1, and 1
/// where `next` is not later than `cur`.
pub open spec fn blend_numer(cur: u128, next: u128, elapsed: u128) -> u128 {
    if next > cur {
        if elapsed_ms(cur, elapsed) < next - cur {
            elapsed_ms(cur, elapsed)
        } else {
            (next - cur) as u128
        }
    } else {
        1
    }
}

/// Denominator that goes with [`blend_numer`].
pub open spec fn blend_denom(cur: u128, next: u128) -> u128 {
    if next > cur {
        (next - cur) as u128
    } else {
        1
    }
}

/// Whether `cursor` is where playback rests at `elapsed` when it was at
/// `from` before: every sample passed on the way was due, and the one after
/// `cursor`, if any, is not due yet.
pub open spec fn rests_at(log: Seq<MovementSample>, from: int, cursor: int, elapsed: u128) -> bool {
    &&& from <= cursor < log.len()
    &&& forall|j: int| from < j <= cursor ==> (#[trigger] log[j]).timestamp <= elapsed
    &&& cursor + 1 < log.len() ==> log[cursor + 1].timestamp > elapsed
}

/// The frame shown with playback resting at `cursor` at `elapsed`.
pub open spec fn frame_at(log: Seq<MovementSample>, cursor: int, elapsed: u128) -> GhostFrame {
    if cursor + 1 < log.len() {
        GhostFrame::Between {
            from: log[cursor],
            to: log[cursor + 1],
            numer: blend_numer(log[cursor].timestamp, log[cursor + 1].timestamp, elapsed),
            denom: blend_denom(log[cursor].timestamp, log[cursor + 1].timestamp),
        }
    } else {
        GhostFrame::Hold { at: log[cursor] }
    }
}

/// The replay of one recorded run, owned by one challenger.
pub struct ReplayGhost {
    /// The recorded trajectory, oldest sample first.
    pub movements: Vec<MovementSample>,
    /// Index of the sample that playback has reached.
    pub cursor: usize,
    /// Wall-clock time, in milliseconds, at which playback started.
    pub start_time: u128,
    /// Whether playback has started.
    pub started: bool,
}

impl ReplayGhost {
    /// The cursor points at a sample unless the log is empty.
    pub open spec fn wf(&self) -> bool {
        self.movements@.len() == 0 || self.cursor < self.movements@.len()
    }

    /// Whether playback runs after an update that sees the owner at `owner_score`.
    pub open spec fn started_after(&self, owner_score: u32) -> bool {
        self.started || owner_score > 0
    }

    /// The playback start time after an update at `now` that sees the owner
    /// at `owner_score`.
    pub open spec fn start_time_after(&self, owner_score: u32, now: u128) -> u128 {
        if !self.started && owner_score > 0 {
            now
        } else {
            self.start_time
        }
    }

    /// Whether `after` and `frame` are what an update at `now`, with the
    /// owner at `owner_score`, makes of this replay.
    pub open spec fn updated(
        &self,
        after: ReplayGhost,
        owner_score: u32,
        now: u128,
        frame: GhostFrame,
    ) -> bool {
        let elapsed = elapsed_ms(after.start_time, now);
        &&& after.wf()
        &&& after.movements@ == self.movements@
        &&& after.started == self.started_after(owner_score)
        &&& after.start_time == self.start_time_after(owner_score, now)
        &&& self.movements@.len() == 0 ==> frame == GhostFrame::Finished && after.cursor
            == self.cursor
        &&& self.movements@.len() > 0 && !after.started ==> frame == GhostFrame::Waiting
            && after.cursor == self.cursor
        &&& self.movements@.len() > 0 && after.started ==> {
            &&& rests_at(self.movements@, self.cursor as int, after.cursor as int, elapsed)
            &&& frame == frame_at(self.movements@, after.cursor as int, elapsed)
        }
    }

    /// A replay of `movements`, created at `now` and not started.
    pub fn new(movements: Vec<MovementSample>, now: u128) -> (replay: ReplayGhost)
        ensures
            replay.wf(),
            replay.movements@ == movements@,
            replay.cursor == 0,
            replay.start_time == now,
            !replay.started,
    {
        ReplayGhost { movements, cursor: 0, start_time: now, started: false }
    }

    /// The pose that the replay is first shown at: the first sample, if any.
    pub fn first_pose(&self) -> (pose: Option<MovementSample>)
        ensures
            pose == (if self.movements@.len() > 0 {
                Some(self.movements@[0])
            } else {
                None
            }),
    {
        if self.movements.len() > 0 {
            Some(self.movements[0])
        } else {
            None
        }
    }

    /// Advances playback to time `now`, given the owner's current score.
    ///
    /// Playback starts at the first update that sees the owner with a score.
    /// An empty log ends the replay at once. Before the start the replay
    /// waits. Otherwise the cursor moves forward over every sample that is
    /// due, never back, and the frame is the last sample, or the fraction of
    /// the way from the sample at the cursor to the next.
    pub fn update(&mut self, owner_score: u32, now: u128) -> (frame: GhostFrame)
        requires
            old(self).wf(),
        ensures
            old(self).updated(*final(self), owner_score, now, frame),
            final(self).cursor >= old(self).cursor,
            (frame == GhostFrame::Finished) == (old(self).movements@.len() == 0),
    {
        if !self.started && owner_score > 0 {
            self.started = true;
            self.start_time = now;
        }
        let len: usize = self.movements.len();
        if len == 0 {
            return GhostFrame::Finished;
        }
        if !self.started {
            return GhostFrame::Waiting;
        }
        let elapsed: u128 = elapsed_since(self.start_time, now);
        while self.cursor + 1 < len && self.movements[self.cursor + 1].timestamp <= elapsed
            invariant
                len == self.movements@.len(),
                self.movements@ == old(self).movements@,
                self.started == old(self).started_after(owner_score),
                self.start_time == old(self).start_time_after(owner_score, now),
                old(self).cursor <= self.cursor < len,
                forall|j: int|
                    old(self).cursor < j <= self.cursor ==> (#[trigger] self.movements@[j]).timestamp
                        <= elapsed,
            decreases len - self.cursor,
        {
            self.cursor = self.cursor + 1;
        }
        let cur: MovementSample = self.movements[self.cursor];
        if self.cursor + 1 < len {
            let next: MovementSample = self.movements[self.cursor + 1];
            if next.timestamp > cur.timestamp {
                let span: u128 = next.timestamp - cur.timestamp;
                let since: u128 = elapsed_since(cur.timestamp, elapsed);
                let numer: u128 = if since < span { since } else { span };
                GhostFrame::Between { from: cur, to: next, numer, denom: span }
            } else {
                GhostFrame::Between { from: cur, to: next, numer: 1, denom: 1 }
            }
        } else {
            GhostFrame::Hold { at: cur }
        }
    }
}

/// The fraction is a proper one: the replay never runs past the next sample.
pub proof fn lemma_blend_is_fraction(cur: u128, next: u128, elapsed: u128)
    ensures
        0 <= blend_numer(cur, next, elapsed) <= blend_denom(cur, next),
        blend_denom(cur, next) > 0,
{
}

/// At the moment of the sample at the cursor the fraction is zero, so the
/// frame lies on that sample; at the moment of the next sample the fraction
/// is one, so the frame lies on the next sample.
pub proof fn lemma_blend_boundaries(cur: u128, next: u128)
    ensures
        cur < next ==> blend_numer(cur, next, cur) == 0,
        blend_numer(cur, next, next) == blend_denom(cur, next),
{
}

/// At the very moment of the sample that playback rests on, the frame lies
/// on that sample: it is held, or it is the start of the way to the next.
pub proof fn lemma_frame_at_cursor_time(
    log: Seq<MovementSample>,
    from: int,
    cursor: int,
    elapsed: u128,
)
    requires
        0 <= from,
        rests_at(log, from, cursor, elapsed),
        log[cursor].timestamp == elapsed,
    ensures
        cursor + 1 == log.len() ==> frame_at(log, cursor, elapsed) == (GhostFrame::Hold {
            at: log[cursor],
        }),
        cursor + 1 < log.len() ==> frame_at(log, cursor, elapsed) == (GhostFrame::Between {
            from: log[cursor],
            to: log[cursor + 1],
            numer: 0,
            denom: (log[cursor + 1].timestamp - log[cursor].timestamp) as u128,
        }),
{
}

/// Whether every sample of the log is later than the one before it.
pub open spec fn increasing(log: Seq<MovementSample>) -> bool {
    forall|i: int, j: int|
        0 <= i < j < log.len() ==> (#[trigger] log[i]).timestamp < (#[trigger] log[j]).timestamp
}

/// On a log of increasing timestamps, playback at the very moment of a
/// sample at or after the old cursor rests on that sample, and the frame
/// lies on it: it is held, or it is the start of the way to the next.
pub proof fn lemma_frame_on_sample(
    log: Seq<MovementSample>,
    from: int,
    cursor: int,
    elapsed: u128,
    k: int,
)
    requires
        increasing(log),
        0 <= from <= k < log.len(),
        log[k].timestamp == elapsed,
        rests_at(log, from, cursor, elapsed),
    ensures
        cursor == k,
        k + 1 == log.len() ==> frame_at(log, cursor, elapsed) == (GhostFrame::Hold { at: log[k] }),
        k + 1 < log.len() ==> frame_at(log, cursor, elapsed) == (GhostFrame::Between {
            from: log[k],
            to: log[k + 1],
            numer: 0,
            denom: (log[k + 1].timestamp - log[k].timestamp) as u128,
        }),
{
    if cursor < k {
        assert(log[cursor + 1].timestamp > elapsed);
        if cursor + 1 < k {
            assert(log[cursor + 1].timestamp < log[k].timestamp);
        }
    }
    if cursor > k {
        assert(log[cursor].timestamp <= elapsed);
        assert(log[k].timestamp < log[cursor].timestamp);
    }
    if k + 1 < log.len() {
        assert(log[k].timestamp < log[k + 1].timestamp);
    }
}

} // verus!
