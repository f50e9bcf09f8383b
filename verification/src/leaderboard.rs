//! The leaderboard store: best score per identity, the single global
//! highscore record, and the decision when a snapshot is due to be saved.

use crate::board::{
    assign, collect, copy_board, distinct, find_identity, lemma_assign_keeps_distinct,
    lemma_collect_is_distinct, lemma_collect_of_distinct, raised, same_board, same_entries,
    ScoreEntry,
};
use crate::movement::MovementSample;
use crate::ranking::{
    descending, lemma_ranked, lemma_ranked_of_descending, lemma_top_k, lemma_top_k_keeps_distinct,
    top_k, top_scores, TOP_K,
};
use vstd::prelude::*;

verus! {

/// The best run ever seen, with what is needed to replay it.
#[derive(Clone, Debug, PartialEq, Eq)]
pub struct HighScore {
    pub username: String,
    pub score: u32,
    pub seed: u64,
    pub movements: Vec<MovementSample>,
}

/// A highscore record as the contracts see it.
pub struct RecordView {
    pub username: Seq<char>,
    pub score: u32,
    pub seed: u64,
    pub movements: Seq<MovementSample>,
}

impl View for HighScore {
    type V = RecordView;

    open spec fn view(&self) -> RecordView {
        RecordView {
            username: self.username@,
            score: self.score,
            seed: self.seed,
            movements: self.movements@,
        }
    }
}

/// The view of a record that may be absent.
pub open spec fn record_view(record: Option<HighScore>) -> Option<RecordView> {
    match record {
        Some(h) => Some(h@),
        None => None,
    }
}

/// What is written to durable storage: the record and the top of the board.
#[derive(Clone, Debug, PartialEq, Eq)]
pub struct SaveData {
    pub highscore: Option<HighScore>,
    pub scoreboard: Vec<ScoreEntry>,
}

/// Whether a finished run of `score` replaces `record`: it must be strictly
/// greater than the record's score, or positive where there is no record.
pub open spec fn beats(record: Option<HighScore>, score: u32) -> bool {
    match record {
        Some(h) => score > h.score,
        None => score > 0,
    }
}

/// A run's score as the board holds it: the same 32 bits read as a signed
/// number.
pub open spec fn board_score(score: u32) -> i32 {
    if score <= i32::MAX {
        score as i32
    } else {
        (score - 0x1_0000_0000) as i32
    }
}

/// Computes [`board_score`].
pub fn to_board_score(score: u32) -> (signed: i32)
    ensures
        signed == board_score(score),
{
    if score <= 0x7fff_ffff {
        score as i32
    } else {
        let low: i32 = (score - 0x8000_0000) as i32;
        low + i32::MIN
    }
}

/// A copy of a movement log.
pub fn copy_log(log: &Vec<MovementSample>) -> (copy: Vec<MovementSample>)
    ensures
        copy@ == log@,
{
    let mut copy: Vec<MovementSample> = Vec::new();
    let mut i: usize = 0;
    while i < log.len()
        invariant
            i <= log@.len(),
            copy@ == log@.take(i as int),
        decreases log@.len() - i,
    {
        copy.push(log[i]);
        proof {
            assert(copy@ =~= log@.take(i + 1));
        }
        i = i + 1;
    }
    proof {
        assert(log@.take(log@.len() as int) =~= log@);
    }
    copy
}

/// A copy of a record that may be absent.
pub fn copy_record(record: &Option<HighScore>) -> (copy: Option<HighScore>)
    ensures
        record_view(copy) == record_view(*record),
{
    match record {
        Some(h) => Some(
            HighScore {
                username: h.username.clone(),
                score: h.score,
                seed: h.seed,
                movements: copy_log(&h.movements),
            },
        ),
        None => None,
    }
}

impl SaveData {
    /// What is saved for `highscore` and a ranking: the record, and the
    /// ranking cut to its first `TOP_K` entries.
    pub fn new(highscore: &Option<HighScore>, scoreboard: &Vec<ScoreEntry>) -> (data: SaveData)
        ensures
            record_view(data.highscore) == record_view(*highscore),
            data.scoreboard@ == (if scoreboard@.len() <= TOP_K {
                scoreboard@
            } else {
                scoreboard@.take(TOP_K as int)
            }),
    {
        let mut top: Vec<ScoreEntry> = copy_board(scoreboard);
        if top.len() > TOP_K {
            top.truncate(TOP_K);
        }
        SaveData { highscore: copy_record(highscore), scoreboard: top }
    }
}

/// The leaderboard of a server: every identity's best score, the global
/// highscore record, and the snapshot that was last handed out for saving.
pub struct LeaderboardStore {
    /// Best score per identity, in order of first entry.
    pub scores: Vec<ScoreEntry>,
    /// The global highscore record, if any run has set one.
    pub highscore: Option<HighScore>,
    /// The top of the board as last handed out for saving.
    pub last_saved: Vec<ScoreEntry>,
}

impl LeaderboardStore {
    /// No identity has two entries on the board.
    pub open spec fn wf(&self) -> bool {
        distinct(self.scores@)
    }

    /// Whether the top of `board` differs from the snapshot last handed out.
    pub open spec fn snapshot_due(&self, board: Seq<ScoreEntry>) -> bool {
        !same_entries(top_k(board), self.last_saved@)
    }

    /// Whether `after` and `request` are what noting that `identity` reached
    /// `score` makes of this store.
    pub open spec fn proposed(
        &self,
        after: LeaderboardStore,
        identity: String,
        score: u32,
        request: Option<SaveData>,
    ) -> bool {
        &&& after.wf()
        &&& after.scores@ == raised(self.scores@, identity, board_score(score))
        &&& after.highscore == self.highscore
        &&& request.is_some() == self.snapshot_due(after.scores@)
        &&& match request {
            Some(data) => {
                &&& data.scoreboard@ == top_k(after.scores@)
                &&& record_view(data.highscore) == record_view(after.highscore)
                &&& after.last_saved@ == top_k(after.scores@)
            },
            None => after.last_saved@ == self.last_saved@,
        }
    }

    /// Whether `after` and `request` are what the result of a finished run
    /// makes of this store.
    pub open spec fn submitted(
        &self,
        after: LeaderboardStore,
        identity: String,
        score: u32,
        seed: u64,
        movements: Seq<MovementSample>,
        request: Option<SaveData>,
    ) -> bool {
        &&& after.wf()
        &&& after.scores@ == raised(self.scores@, identity, board_score(score))
        &&& beats(self.highscore, score) ==> record_view(after.highscore) == Some(
            RecordView { username: identity@, score, seed, movements },
        )
        &&& !beats(self.highscore, score) ==> after.highscore == self.highscore
        &&& request.is_some() == (self.snapshot_due(after.scores@) || beats(self.highscore, score))
        &&& after.last_saved@ == (if self.snapshot_due(after.scores@) {
            top_k(after.scores@)
        } else {
            self.last_saved@
        })
        &&& match request {
            Some(data) => {
                &&& data.scoreboard@ == top_k(after.scores@)
                &&& record_view(data.highscore) == record_view(after.highscore)
            },
            None => true,
        }
    }

    /// An empty store: no scores, no record, nothing saved.
    pub fn new() -> (store: LeaderboardStore)
        ensures
            store.wf(),
            store.scores@ == Seq::<ScoreEntry>::empty(),
            store.highscore.is_none(),
            store.last_saved@ == Seq::<ScoreEntry>::empty(),
    {
        LeaderboardStore { scores: Vec::new(), highscore: None, last_saved: Vec::new() }
    }

    /// The store that loaded data gives: the board holds the loaded entries,
    /// the later of two entries of one identity setting its score; the record
    /// and the snapshot are the loaded ones.
    pub fn load(data: SaveData) -> (store: LeaderboardStore)
        ensures
            store.wf(),
            store.scores@ == collect(data.scoreboard@),
            store.highscore == data.highscore,
            store.last_saved@ == data.scoreboard@,
    {
        let mut scores: Vec<ScoreEntry> = Vec::new();
        let mut i: usize = 0;
        proof {
            assert(data.scoreboard@.take(0) =~= Seq::<ScoreEntry>::empty());
        }
        while i < data.scoreboard.len()
            invariant
                i <= data.scoreboard@.len(),
                scores@ == collect(data.scoreboard@.take(i as int)),
            decreases data.scoreboard@.len() - i,
        {
            let identity: String = data.scoreboard[i].identity.clone();
            let score: i32 = data.scoreboard[i].score;
            proof {
                let upto = data.scoreboard@.take(i + 1);
                assert(upto.drop_last() =~= data.scoreboard@.take(i as int));
                assert(upto.last() == data.scoreboard@[i as int]);
            }
            set_score(&mut scores, identity, score);
            i = i + 1;
        }
        proof {
            assert(data.scoreboard@.take(data.scoreboard@.len() as int) =~= data.scoreboard@);
            lemma_collect_is_distinct(data.scoreboard@);
        }
        LeaderboardStore { scores, highscore: data.highscore, last_saved: data.scoreboard }
    }

    /// The top of the board: computes [`top_k`] of the scores.
    pub fn top(&self) -> (top: Vec<ScoreEntry>)
        ensures
            top@ == top_k(self.scores@),
    {
        top_scores(&self.scores)
    }

    /// Takes note that `identity` has reached `score` in a run.
    ///
    /// The board takes the score if the identity is new or the score beats
    /// its best. If the top of the board then differs from the snapshot last
    /// handed out, the new snapshot is remembered and handed out, with the
    /// record, to be saved.
    pub fn propose(&mut self, identity: String, score: u32) -> (request: Option<SaveData>)
        requires
            old(self).wf(),
        ensures
            old(self).proposed(*final(self), identity, score, request),
            match request {
                Some(data) => data.scoreboard@.len() <= TOP_K && descending(data.scoreboard@),
                None => true,
            },
    {
        raise_score(&mut self.scores, identity, to_board_score(score));
        let top: Vec<ScoreEntry> = top_scores(&self.scores);
        if same_board(&top, &self.last_saved) {
            None
        } else {
            let data: SaveData = SaveData::new(&self.highscore, &top);
            self.last_saved = top;
            Some(data)
        }
    }

    /// Takes the result of a finished run.
    ///
    /// The board takes the score as in [`LeaderboardStore::propose`]. The run
    /// becomes the global record if its score is strictly greater than the
    /// record's, or positive where there is no record. Data to be saved is
    /// handed out if the top of the board differs from the snapshot last
    /// handed out or the record was replaced; it holds the record and the top
    /// of the board as they are after the call.
    pub fn submit(
        &mut self,
        identity: String,
        score: u32,
        seed: u64,
        movements: Vec<MovementSample>,
    ) -> (request: Option<SaveData>)
        requires
            old(self).wf(),
        ensures
            old(self).submitted(*final(self), identity, score, seed, movements@, request),
            match request {
                Some(data) => data.scoreboard@.len() <= TOP_K && descending(data.scoreboard@),
                None => true,
            },
    {
        let replaced: bool = match &self.highscore {
            Some(h) => score > h.score,
            None => score > 0,
        };
        raise_score(&mut self.scores, identity.clone(), to_board_score(score));
        let top: Vec<ScoreEntry> = top_scores(&self.scores);
        let due: bool = !same_board(&top, &self.last_saved);
        if replaced {
            self.highscore = Some(HighScore { username: identity, score, seed, movements });
        }
        if due || replaced {
            let data: SaveData = SaveData::new(&self.highscore, &top);
            if due {
                self.last_saved = top;
            }
            Some(data)
        } else {
            None
        }
    }
}

/// Sets the score of `identity` on the board: computes [`assign`].
pub fn set_score(board: &mut Vec<ScoreEntry>, identity: String, score: i32)
    ensures
        final(board)@ == assign(old(board)@, identity, score),
{
    let k: usize = find_identity(board, &identity);
    if k < board.len() {
        board.set(k, ScoreEntry { identity, score });
    } else {
        board.push(ScoreEntry { identity, score });
    }
}

/// Lets `identity` reach `score` on the board: computes [`raised`].
pub fn raise_score(board: &mut Vec<ScoreEntry>, identity: String, score: i32)
    requires
        distinct(old(board)@),
    ensures
        final(board)@ == raised(old(board)@, identity, score),
        distinct(final(board)@),
{
    proof {
        lemma_assign_keeps_distinct(board@, identity, score);
    }
    let k: usize = find_identity(board, &identity);
    if k < board.len() && score <= board[k].score {
    } else {
        set_score(board, identity, score);
    }
}

/// The record only rises: the result of a finished run never removes the
/// record and never replaces it by one of a lower score; a run that does not
/// beat the record leaves it as it is.
pub proof fn lemma_record_only_rises(
    before: LeaderboardStore,
    after: LeaderboardStore,
    identity: String,
    score: u32,
    seed: u64,
    movements: Seq<MovementSample>,
    request: Option<SaveData>,
)
    requires
        before.submitted(after, identity, score, seed, movements, request),
    ensures
        before.highscore.is_some() ==> after.highscore.is_some(),
        before.highscore.is_some() ==> after.highscore.unwrap().score
            >= before.highscore.unwrap().score,
        after.highscore.is_some() && record_view(after.highscore) != record_view(before.highscore)
            ==> after.highscore.unwrap().score == score && score > 0,
{
}

/// The snapshot handed out for a board, loaded again, gives a board with
/// that same snapshot as its top: the same entries in the same order.
pub proof fn lemma_saved_snapshot_reloads(board: Seq<ScoreEntry>)
    requires
        distinct(board),
    ensures
        top_k(collect(top_k(board))) == top_k(board),
{
    lemma_top_k(board);
    lemma_top_k_keeps_distinct(board);
    lemma_reload_keeps_snapshot(top_k(board));
}

/// Saving and loading again keeps the snapshot: a store loaded from a saved
/// ranking that is in descending order, names no identity twice and has at
/// most `TOP_K` entries has that ranking as the top of its board.
pub proof fn lemma_reload_keeps_snapshot(saved: Seq<ScoreEntry>)
    requires
        descending(saved),
        distinct(saved),
        saved.len() <= TOP_K,
    ensures
        top_k(collect(saved)) == saved,
{
    lemma_collect_of_distinct(saved);
    lemma_ranked_of_descending(saved);
    lemma_ranked(saved);
}

} // verus!
