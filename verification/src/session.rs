//! One player's session: the run, the replay that races beside it if there
//! is one, and the steps of a tick that touch the leaderboard.

use crate::geometry::Material;
use crate::leaderboard::{copy_log, HighScore, LeaderboardStore, SaveData};
use crate::replay::{GhostFrame, ReplayGhost};
use crate::run::RunState;
use vstd::prelude::*;

verus! {

/// What a landing hands back to the host.
pub struct Landing {
    /// Materials of the new footholds, oldest first.
    pub materials: Vec<Material>,
    /// Data to be saved, if the landing changed the top of the board.
    pub request: Option<SaveData>,
}

/// A player's run together with the replay it races against, if any.
pub struct Session {
    pub run: RunState,
    /// The replay owned by this player; at most one at a time.
    pub replay: Option<ReplayGhost>,
}

impl Session {
    /// The run is well formed, and so is the replay if there is one.
    pub open spec fn wf(&self) -> bool {
        &&& self.run.wf()
        &&& match self.replay {
            Some(replay) => replay.wf(),
            None => true,
        }
    }

    /// A session whose run starts at `now` on the path of `seed`, without a
    /// replay.
    pub fn spawn(seed: u64, now: u128) -> (session: Session)
        ensures
            session.wf(),
            session.run.fresh(seed, now),
            session.replay.is_none(),
    {
        Session { run: RunState::start(seed, now), replay: None }
    }

    /// Answers a request to race the global record.
    ///
    /// Without a record the request is turned down and nothing changes.
    /// With one, the run is put on the record's seed with a score of zero,
    /// and a replay of the record's movement log, not yet started, takes the
    /// place of any replay the player had.
    pub fn request_replay(&mut self, record: &Option<HighScore>, now: u128) -> (accepted: bool)
        requires
            old(self).wf(),
        ensures
            final(self).wf(),
            accepted == record.is_some(),
            match *record {
                Some(h) => {
                    &&& final(self).run.switched(old(self).run, h.seed, now)
                    &&& match final(self).replay {
                        Some(replay) => {
                            &&& replay.movements@ == h.movements@
                            &&& replay.cursor == 0
                            &&& replay.start_time == now
                            &&& !replay.started
                        },
                        None => false,
                    }
                },
                None => *final(self) == *old(self),
            },
    {
        match record {
            Some(h) => {
                self.run.begin_replay(h.seed, now);
                self.replay = Some(ReplayGhost::new(copy_log(&h.movements), now));
                true
            },
            None => false,
        }
    }

    /// Advances the replay, if there is one, to time `now`.
    ///
    /// Gives `None` without a replay. Otherwise gives the frame of the
    /// replay's update against the run's score; a replay whose frame is
    /// `Finished` is dropped.
    pub fn update_replay(&mut self, now: u128) -> (frame: Option<GhostFrame>)
        requires
            old(self).wf(),
        ensures
            final(self).wf(),
            final(self).run == old(self).run,
            match old(self).replay {
                Some(before) => match frame {
                    Some(shown) => if shown == GhostFrame::Finished {
                        before.movements@.len() == 0 && final(self).replay.is_none()
                    } else {
                        match final(self).replay {
                            Some(after) => before.updated(after, old(self).run.score, now, shown),
                            None => false,
                        }
                    },
                    None => false,
                },
                None => frame.is_none() && final(self).replay.is_none(),
            },
    {
        match self.replay.take() {
            Some(mut replay) => {
                let shown: GhostFrame = replay.update(self.run.score, now);
                match shown {
                    GhostFrame::Finished => {},
                    _ => {
                        self.replay = Some(replay);
                    },
                }
                Some(shown)
            },
            None => None,
        }
    }

    /// Takes a landing `index` footholds ahead and notes the new score on
    /// the board under `identity`.
    pub fn on_landing(
        &mut self,
        store: &mut LeaderboardStore,
        identity: String,
        index: usize,
        now: u128,
        budget_ms: u128,
    ) -> (landing: Landing)
        requires
            old(self).wf(),
            old(self).run.landable(index),
            old(store).wf(),
        ensures
            final(self).wf(),
            final(self).replay == old(self).replay,
            final(self).run.landed(old(self).run, index, now, budget_ms),
            old(store).proposed(*final(store), identity, final(self).run.score, landing.request),
            landing.materials@.len() == index,
            forall|k: int| 0 <= k < index ==> landing.materials@[k] == Material::Obsidian,
    {
        let materials: Vec<Material> = self.run.land(index, now, budget_ms);
        let request: Option<SaveData> = store.propose(identity, self.run.score);
        Landing { materials, request }
    }

    /// Ends the run after a fall: its score, seed and movement log go to the
    /// store under `identity`, the replay is dropped, and the next run starts
    /// at `now` on the path of `next_seed`.
    pub fn finish(
        &mut self,
        store: &mut LeaderboardStore,
        identity: String,
        next_seed: u64,
        now: u128,
    ) -> (request: Option<SaveData>)
        requires
            old(self).wf(),
            old(store).wf(),
        ensures
            final(self).wf(),
            final(self).run.fresh(next_seed, now),
            final(self).replay.is_none(),
            old(store).submitted(
                *final(store),
                identity,
                old(self).run.score,
                old(self).run.seed,
                old(self).run.recorder.samples@,
                request,
            ),
    {
        let log = copy_log(&self.run.recorder.samples);
        let request: Option<SaveData> = store.submit(identity, self.run.score, self.run.seed, log);
        self.replay = None;
        self.run.reset(next_seed, now);
        request
    }

    /// Finalizes the run when the player leaves: its score, seed and
    /// movement log go to the store under `identity`. The session itself is
    /// left as it is, for the host to drop.
    pub fn disconnect(&self, store: &mut LeaderboardStore, identity: String) -> (request: Option<
        SaveData,
    >)
        requires
            self.wf(),
            old(store).wf(),
        ensures
            old(store).submitted(
                *final(store),
                identity,
                self.run.score,
                self.run.seed,
                self.run.recorder.samples@,
                request,
            ),
    {
        let log = copy_log(&self.run.recorder.samples);
        store.submit(identity, self.run.score, self.run.seed, log)
    }
}

} // verus!
