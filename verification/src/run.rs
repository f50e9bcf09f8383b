//! One player's run: the sliding window of footholds, score, combo and the
//! landing rule that moves them on.

use crate::geometry::{spawn_block, spawn_pos, BlockPos, Material, BASELINE_Y};
use crate::movement::{elapsed_ms, elapsed_since, MovementRecorder, MovementSample};
use crate::path::{
    bias_after, next_bias, next_foothold, step_from, BiasMode, MAX_DEPTH_STEP, MAX_DRIFT,
    MAX_SIDE_STEP,
};
use crate::stream::{pick_draw, pick_material, seed_state, seeded, stream_state};
use rand::rngs::StdRng;
use std::collections::VecDeque;
use vstd::prelude::*;

verus! {

/// Number of footholds generated ahead of the spawn foothold.
pub const LOOKAHEAD: usize = 10;

/// Number of footholds in the window of an active run.
pub const WINDOW_LEN: usize = 11;

/// Number of materials that a generated foothold is picked from.
pub const PALETTE_LEN: usize = 1;

/// What the path generator has produced so far: the window, the bias in
/// force, and the state of the random stream.
pub struct PathState {
    pub blocks: Seq<BlockPos>,
    pub bias: BiasMode,
    pub state: nat,
}

/// The foothold generated after the last one of `st`.
pub open spec fn next_block(st: PathState) -> BlockPos {
    let last = st.blocks.last();
    let step = step_from(st.state, last, st.bias);
    BlockPos {
        x: (last.x + step.dx) as i32,
        y: (last.y + step.dy) as i32,
        z: (last.z + step.dz) as i32,
    }
}

/// `st` with one more foothold generated and appended: the step is drawn,
/// the bias moves on, and the foothold's material is picked.
pub open spec fn grow(st: PathState) -> PathState {
    let step = step_from(st.state, st.blocks.last(), st.bias);
    PathState {
        blocks: st.blocks.push(next_block(st)),
        bias: bias_after(st.blocks.last(), st.bias),
        state: pick_draw(step.state, PALETTE_LEN as nat).1,
    }
}

/// `st` with `n` more footholds generated and appended.
pub open spec fn grow_n(st: PathState, n: nat) -> PathState
    decreases n,
{
    if n == 0 {
        st
    } else {
        grow(grow_n(st, (n - 1) as nat))
    }
}

/// `st` with its oldest foothold evicted and one more generated.
pub open spec fn slide(st: PathState) -> PathState {
    grow(PathState { blocks: st.blocks.drop_first(), bias: st.bias, state: st.state })
}

/// `st` slid forward by `n` footholds.
pub open spec fn slide_n(st: PathState, n: nat) -> PathState
    decreases n,
{
    if n == 0 {
        st
    } else {
        slide(slide_n(st, (n - 1) as nat))
    }
}

/// The path state of a run that has just spawned on `seed`.
pub open spec fn spawn_path(seed: u64) -> PathState {
    PathState { blocks: seq![spawn_pos()], bias: BiasMode::Neutral, state: seed_state(seed) }
}

/// The window that a run seeded with `seed` starts with: the spawn foothold
/// and the first generated ones.
pub open spec fn initial_path(seed: u64) -> PathState {
    grow_n(spawn_path(seed), LOOKAHEAD as nat)
}

/// The path state of a run on `seed` that has passed `score` footholds.
pub open spec fn path_at(seed: u64, score: nat) -> PathState {
    slide_n(initial_path(seed), score)
}

/// The altitudes that the bias rule keeps the newest foothold within.
pub open spec fn in_band(y: i32, bias: BiasMode) -> bool {
    match bias {
        BiasMode::Neutral => BASELINE_Y - MAX_DRIFT - 1 <= y <= BASELINE_Y + MAX_DRIFT + 1,
        BiasMode::ReturnToBaseline => BASELINE_Y - MAX_DRIFT - 2 <= y <= BASELINE_Y + MAX_DRIFT + 2,
    }
}

/// The altitudes that no foothold of a run ever leaves.
pub open spec fn near_baseline(y: i32) -> bool {
    BASELINE_Y - MAX_DRIFT - 2 <= y <= BASELINE_Y + MAX_DRIFT + 2
}

/// The combo after a landing `index` footholds ahead that took `elapsed`
/// milliseconds against a budget of `budget` milliseconds.
pub open spec fn combo_after(combo: u32, index: int, elapsed: u128, budget: u128) -> int {
    if elapsed < budget {
        combo + index
    } else {
        0
    }
}

/// Whether `i` is the window index of a landing on `under`: the first
/// foothold at `under`, and ahead of the one the player stands on.
pub open spec fn lands_at(blocks: Seq<BlockPos>, under: BlockPos, i: int) -> bool {
    &&& 0 < i < blocks.len()
    &&& blocks[i] == under
    &&& forall|j: int| 0 <= j < i ==> blocks[j] != under
}

/// The state of one player's run.
pub struct RunState {
    /// The window of footholds, oldest first; the player stands on the first.
    pub blocks: VecDeque<BlockPos>,
    /// Footholds passed in this run.
    pub score: u32,
    /// Footholds passed in the current streak of timely landings.
    pub combo: u32,
    /// Vertical drift policy in force for the next foothold.
    pub bias: BiasMode,
    /// Wall-clock time, in milliseconds, of the last landing or regeneration.
    pub last_landing: u128,
    /// Seed of the run's random stream.
    pub seed: u64,
    /// Trajectory recorder of the run.
    pub recorder: MovementRecorder,
    /// The run's random stream.
    pub rng: StdRng,
}

impl RunState {
    /// The generator's state as the contracts see it.
    pub open spec fn path(&self) -> PathState {
        PathState { blocks: self.blocks@, bias: self.bias, state: stream_state(self.rng) }
    }

    /// The window is not empty, the newest foothold lies in the band that the
    /// bias rule keeps, and every foothold lies near the baseline.
    pub open spec fn coherent(&self) -> bool {
        &&& self.blocks@.len() >= 1
        &&& in_band(self.blocks@.last().y, self.bias)
        &&& forall|k: int|
            0 <= k < self.blocks@.len() ==> near_baseline((#[trigger] self.blocks@[k]).y)
    }

    /// The invariant of an active run: coherent, with a full window, which
    /// is the one that the seed gives after as many footholds as the score.
    pub open spec fn wf(&self) -> bool {
        &&& self.coherent()
        &&& self.blocks@.len() == WINDOW_LEN
        &&& self.path() == path_at(self.seed, self.score as nat)
    }

    /// Whether `steps` more footholds fit into the coordinate type whatever
    /// the stream gives.
    pub open spec fn has_room(&self, steps: int) -> bool {
        let last = self.blocks@.last();
        &&& i32::MIN + MAX_SIDE_STEP * steps <= last.x <= i32::MAX - MAX_SIDE_STEP * steps
        &&& last.z <= i32::MAX - MAX_DEPTH_STEP * steps
    }

    /// Whether a landing `index` footholds ahead can be taken: the index is
    /// ahead of the player and inside the window, and neither the counters
    /// nor the coordinates would overflow.
    pub open spec fn landable(&self, index: usize) -> bool {
        &&& 0 < index < WINDOW_LEN
        &&& self.score + index <= u32::MAX
        &&& self.combo + index <= u32::MAX
        &&& self.has_room(index as int)
    }

    /// Whether this is a run freshly started at `now` on the path of `seed`:
    /// the initial window, no score, no combo, neutral bias, an idle recorder.
    pub open spec fn fresh(&self, seed: u64, now: u128) -> bool {
        &&& self.wf()
        &&& self.path() == initial_path(seed)
        &&& self.seed == seed
        &&& self.score == 0
        &&& self.combo == 0
        &&& self.last_landing == now
        &&& self.recorder.samples@ == Seq::<MovementSample>::empty()
        &&& self.recorder.start_time == now
        &&& !self.recorder.active
    }

    /// Whether this is `before` put on the path of `seed` at `now` for a
    /// replay: the initial window of `seed`, no score, combo and recorder kept.
    pub open spec fn switched(&self, before: RunState, seed: u64, now: u128) -> bool {
        &&& self.wf()
        &&& self.path() == initial_path(seed)
        &&& self.seed == seed
        &&& self.score == 0
        &&& self.last_landing == now
        &&& self.combo == before.combo
        &&& self.recorder == before.recorder
    }

    /// Whether this is `before` after a landing `index` footholds ahead at
    /// `now`, judged against a budget of `budget_ms` milliseconds.
    pub open spec fn landed(&self, before: RunState, index: usize, now: u128, budget_ms: u128) -> bool {
        &&& self.wf()
        &&& self.path() == slide_n(before.path(), index as nat)
        &&& self.score == before.score + index
        &&& self.combo == combo_after(
            before.combo,
            index as int,
            elapsed_ms(before.last_landing, now),
            budget_ms,
        )
        &&& self.last_landing == now
        &&& self.seed == before.seed
        &&& self.recorder.active
        &&& self.recorder.samples@ == before.recorder.samples@
        &&& self.recorder.start_time == (if before.recorder.active {
            before.recorder.start_time
        } else {
            now
        })
    }

    /// Extends the path by one foothold at time `now`; when `in_game`, the
    /// oldest foothold is evicted first and counts one point. Returns the
    /// material picked for the new foothold.
    pub fn generate_next_block(&mut self, in_game: bool, now: u128) -> (material: Material)
        requires
            old(self).coherent(),
            old(self).has_room(1),
            in_game ==> old(self).blocks@.len() >= 2 && old(self).score < u32::MAX,
        ensures
            final(self).coherent(),
            final(self).path() == (if in_game {
                slide(old(self).path())
            } else {
                grow(old(self).path())
            }),
            in_game && old(self).wf() ==> final(self).wf(),
            final(self).score == old(self).score + (if in_game { 1int } else { 0int }),
            final(self).last_landing == now,
            final(self).seed == old(self).seed,
            final(self).combo == old(self).combo,
            final(self).recorder == old(self).recorder,
            material == Material::Obsidian,
            -MAX_SIDE_STEP <= final(self).blocks@.last().x - old(self).blocks@.last().x
                <= MAX_SIDE_STEP,
            1 <= final(self).blocks@.last().z - old(self).blocks@.last().z <= MAX_DEPTH_STEP,
    {
        if in_game {
            let _ = self.blocks.pop_front();
            self.score = self.score + 1;
        }
        let last_index: usize = self.blocks.len() - 1;
        let last: BlockPos = self.blocks[last_index];
        proof {
            assert(last == old(self).blocks@.last());
            if in_game {
                assert(self.blocks@ =~= old(self).blocks@.drop_first());
            }
        }
        let pos: BlockPos = next_foothold(last, self.bias, &mut self.rng);
        self.bias = next_bias(last, self.bias);
        let palette: [Material; PALETTE_LEN] = [Material::Obsidian];
        let material: Material = pick_material(&mut self.rng, palette.as_slice());
        self.blocks.push_back(pos);
        self.last_landing = now;
        material
    }

    /// Replaces the window by the one that `seed` starts with, re-seeds the
    /// stream, returns to a neutral bias and to a score of zero. Combo and
    /// recorder stay.
    fn regenerate(&mut self, seed: u64, now: u128)
        ensures
            final(self).wf(),
            final(self).path() == initial_path(seed),
            final(self).seed == seed,
            final(self).last_landing == now,
            final(self).score == 0,
            final(self).combo == old(self).combo,
            final(self).recorder == old(self).recorder,
    {
        self.score = 0;
        self.blocks.clear();
        self.blocks.push_back(spawn_block());
        self.rng = seeded(seed);
        self.seed = seed;
        self.bias = BiasMode::Neutral;
        self.last_landing = now;
        proof {
            assert(self.blocks@ =~= spawn_path(seed).blocks);
        }
        let mut i: usize = 0;
        while i < LOOKAHEAD
            invariant
                i <= LOOKAHEAD,
                self.coherent(),
                self.blocks@.len() == i + 1,
                self.path() == grow_n(spawn_path(seed), i as nat),
                self.seed == seed,
                self.last_landing == now,
                self.score == 0,
                self.combo == old(self).combo,
                self.recorder == old(self).recorder,
                -3 * i <= self.blocks@.last().x <= 3 * i,
                self.blocks@.last().z <= 4 * i,
            decreases LOOKAHEAD - i,
        {
            let _ = self.generate_next_block(false, now);
            i = i + 1;
        }
    }

    /// Starts a run at time `now` on the path that `seed` gives: the spawn
    /// foothold and the generated ones ahead of it, no score, no combo,
    /// neutral bias, and an idle recorder.
    pub fn start(seed: u64, now: u128) -> (run: RunState)
        ensures
            run.fresh(seed, now),
    {
        let mut run = RunState {
            blocks: VecDeque::new(),
            score: 0,
            combo: 0,
            bias: BiasMode::Neutral,
            last_landing: now,
            seed,
            recorder: MovementRecorder::new(now),
            rng: seeded(seed),
        };
        run.regenerate(seed, now);
        run
    }

    /// Ends the run and starts the next one at time `now` on the path that
    /// `seed` gives, as [`RunState::start`] does.
    pub fn reset(&mut self, seed: u64, now: u128)
        ensures
            final(self).fresh(seed, now),
    {
        self.combo = 0;
        self.recorder = MovementRecorder::new(now);
        self.regenerate(seed, now);
    }

    /// Puts the run on the path of a recorded run: the window that `seed`
    /// starts with, and a score of zero. Combo and recorder are kept.
    pub fn begin_replay(&mut self, seed: u64, now: u128)
        ensures
            final(self).switched(*old(self), seed, now),
    {
        self.regenerate(seed, now);
    }

    /// Finds the foothold under the player. Gives the window index of the
    /// first foothold at `under` if that index is ahead of the player, and
    /// `None` if `under` is the foothold already occupied or none of the window.
    pub fn landing_index(&self, under: BlockPos) -> (found: Option<usize>)
        ensures
            match found {
                Some(i) => lands_at(self.blocks@, under, i as int),
                None => {
                    &&& forall|i: int| !lands_at(self.blocks@, under, i)
                    &&& {
                        ||| self.blocks@.len() > 0 && self.blocks@[0] == under
                        ||| forall|j: int| 0 <= j < self.blocks@.len() ==> self.blocks@[j] != under
                    }
                },
            },
    {
        let n: usize = self.blocks.len();
        let mut i: usize = 0;
        while i < n
            invariant
                i <= n,
                n == self.blocks@.len(),
                forall|j: int| 0 <= j < i ==> self.blocks@[j] != under,
            decreases n - i,
        {
            if self.blocks[i] == under {
                if i == 0 {
                    return None;
                }
                return Some(i);
            }
            i = i + 1;
        }
        None
    }

    /// Decides [`RunState::landable`].
    pub fn can_land(&self, index: usize) -> (ok: bool)
        requires
            self.wf(),
        ensures
            ok == self.landable(index),
    {
        if index == 0 || index >= WINDOW_LEN {
            return false;
        }
        let steps: u32 = index as u32;
        let last: BlockPos = self.blocks[WINDOW_LEN - 1];
        let side: i32 = MAX_SIDE_STEP * (index as i32);
        let depth: i32 = MAX_DEPTH_STEP * (index as i32);
        self.score <= u32::MAX - steps && self.combo <= u32::MAX - steps && i32::MIN + side
            <= last.x && last.x <= i32::MAX - side && last.z <= i32::MAX - depth
    }

    /// Takes a landing on the foothold at window index `index` at time `now`,
    /// judged against a time budget of `budget_ms` milliseconds.
    ///
    /// The first landing of a run starts the recorder. A landing made in less
    /// than the budget since the last one adds `index` to the combo; a slower
    /// one sets the combo to zero. The window then slides by `index`
    /// footholds, each counting one point. Returns the materials picked for
    /// the new footholds, oldest first.
    pub fn land(&mut self, index: usize, now: u128, budget_ms: u128) -> (materials: Vec<Material>)
        requires
            old(self).wf(),
            old(self).landable(index),
        ensures
            final(self).landed(*old(self), index, now, budget_ms),
            elapsed_ms(old(self).last_landing, now) >= budget_ms ==> final(self).combo == 0,
            elapsed_ms(old(self).last_landing, now) < budget_ms ==> final(self).combo == old(
                self,
            ).combo + index,
            final(self).blocks@.len() == old(self).blocks@.len(),
            forall|k: int|
                0 <= k < WINDOW_LEN - index ==> final(self).blocks@[k] == old(self).blocks@[k
                    + index],
            materials@.len() == index,
            forall|k: int| 0 <= k < index ==> materials@[k] == Material::Obsidian,
    {
        if !self.recorder.active {
            self.recorder.start(now);
        }
        let elapsed: u128 = elapsed_since(self.last_landing, now);
        if elapsed < budget_ms {
            self.combo = self.combo + (index as u32);
        } else {
            self.combo = 0;
        }
        let mut materials: Vec<Material> = Vec::new();
        let mut i: usize = 0;
        while i < index
            invariant
                i <= index < WINDOW_LEN,
                self.wf(),
                self.path() == slide_n(old(self).path(), i as nat),
                self.score == old(self).score + i,
                old(self).score + index <= u32::MAX,
                old(self).has_room(index as int),
                self.seed == old(self).seed,
                i > 0 ==> self.last_landing == now,
                self.combo == combo_after(
                    old(self).combo,
                    index as int,
                    elapsed_ms(old(self).last_landing, now),
                    budget_ms,
                ),
                self.recorder.active,
                self.recorder.samples@ == old(self).recorder.samples@,
                self.recorder.start_time == (if old(self).recorder.active {
                    old(self).recorder.start_time
                } else {
                    now
                }),
                old(self).blocks@.last().x - 3 * i <= self.blocks@.last().x
                    <= old(self).blocks@.last().x + 3 * i,
                self.blocks@.last().z <= old(self).blocks@.last().z + 4 * i,
                materials@.len() == i,
                forall|k: int| 0 <= k < i ==> materials@[k] == Material::Obsidian,
            decreases index - i,
        {
            let material: Material = self.generate_next_block(true, now);
            materials.push(material);
            i = i + 1;
        }
        proof {
            lemma_slide_n_window(old(self).path(), index as nat);
        }
        materials
    }

    /// One tick of the run with the player standing on `under` at time `now`.
    ///
    /// `budgets` holds, for each window index, the time budget in
    /// milliseconds of a landing there. If `under` is a foothold ahead of
    /// the player and the landing can be taken, it is taken as by
    /// [`RunState::land`], and the index is returned with the materials of
    /// the new footholds. Otherwise nothing changes.
    pub fn on_tick(&mut self, under: BlockPos, now: u128, budgets: &Vec<u128>) -> (taken: Option<
        (usize, Vec<Material>),
    >)
        requires
            old(self).wf(),
            budgets@.len() == WINDOW_LEN,
        ensures
            final(self).wf(),
            match taken {
                Some((index, materials)) => {
                    &&& lands_at(old(self).blocks@, under, index as int)
                    &&& old(self).landable(index)
                    &&& final(self).landed(*old(self), index, now, budgets@[index as int])
                    &&& materials@.len() == index
                    &&& forall|k: int| 0 <= k < index ==> materials@[k] == Material::Obsidian
                },
                None => {
                    &&& *final(self) == *old(self)
                    &&& forall|i: usize|
                        lands_at(old(self).blocks@, under, i as int) ==> !old(self).landable(i)
                },
            },
    {
        match self.landing_index(under) {
            Some(index) => {
                if self.can_land(index) {
                    let materials: Vec<Material> = self.land(index, now, budgets[index]);
                    Some((index, materials))
                } else {
                    proof {
                        assert forall|i: usize|
                            lands_at(self.blocks@, under, i as int) implies !self.landable(i) by {
                            if i < index {
                                assert(self.blocks@[i as int] != under);
                            } else if i > index {
                                assert(self.blocks@[index as int] == under);
                            }
                        }
                    }
                    None
                }
            },
            None => None,
        }
    }
}

/// Sliding by `n` keeps the size of the window: the oldest `n` footholds are
/// gone, the others have moved `n` places toward the front, and `n` new ones
/// stand at the end.
pub proof fn lemma_slide_n_window(st: PathState, n: nat)
    requires
        st.blocks.len() >= 1,
    ensures
        slide_n(st, n).blocks.len() == st.blocks.len(),
        forall|k: int| 0 <= k < st.blocks.len() - n ==> slide_n(st, n).blocks[k] == st.blocks[k + n],
    decreases n,
{
    if n > 0 {
        lemma_slide_n_window(st, (n - 1) as nat);
        let before = slide_n(st, (n - 1) as nat);
        let after = slide_n(st, n);
        assert(after.blocks.len() == before.blocks.len());
        assert forall|k: int| 0 <= k < st.blocks.len() - n implies after.blocks[k] == st.blocks[k
            + n] by {
            assert(after.blocks[k] == before.blocks[k + 1]);
        }
    }
}

/// A run is repeatable: two runs on one seed that have passed the same number
/// of footholds have the same window, the same bias, and streams in the same
/// state, so they go on alike.
pub proof fn lemma_run_is_repeatable(a: RunState, b: RunState)
    requires
        a.wf(),
        b.wf(),
        a.seed == b.seed,
        a.score == b.score,
    ensures
        a.blocks@ == b.blocks@,
        a.bias == b.bias,
        stream_state(a.rng) == stream_state(b.rng),
{
}

/// Two runs that agree on window, bias and stream state agree on them again
/// after each has slid forward by the same number of footholds.
pub proof fn lemma_same_landings_same_path(
    a: RunState,
    a_next: RunState,
    b: RunState,
    b_next: RunState,
    n: nat,
)
    requires
        a.path() == b.path(),
        a_next.path() == slide_n(a.path(), n),
        b_next.path() == slide_n(b.path(), n),
    ensures
        a_next.blocks@ == b_next.blocks@,
        a_next.bias == b_next.bias,
        stream_state(a_next.rng) == stream_state(b_next.rng),
{
}

} // verus!
