//! Ranking of a score board: highest score first, and among equal scores the
//! entry that stands earlier on the board first.

use crate::board::{copy_entry, distinct, ScoreEntry};
use vstd::prelude::*;

verus! {

/// Number of entries in a persisted snapshot.
pub const TOP_K: usize = 15;

/// Index of the first entry at or after `k` whose score is less than `score`,
/// or the length of `ranking` if there is none.
pub open spec fn slot(ranking: Seq<ScoreEntry>, score: i32, k: int) -> int
    decreases ranking.len() - k,
{
    if 0 <= k < ranking.len() && ranking[k].score >= score {
        slot(ranking, score, k + 1)
    } else {
        k
    }
}

/// The entries of `board` by descending score; entries of equal score keep
/// their order on the board.
pub open spec fn ranked(board: Seq<ScoreEntry>) -> Seq<ScoreEntry>
    decreases board.len(),
{
    if board.len() == 0 {
        Seq::<ScoreEntry>::empty()
    } else {
        let rest = ranked(board.drop_last());
        rest.insert(slot(rest, board.last().score, 0), board.last())
    }
}

/// The first `TOP_K` entries of the ranking of `board`, or all if it has fewer.
pub open spec fn top_k(board: Seq<ScoreEntry>) -> Seq<ScoreEntry> {
    let all = ranked(board);
    if all.len() <= TOP_K {
        all
    } else {
        all.take(TOP_K as int)
    }
}

/// Whether no entry has a greater score than one before it.
pub open spec fn descending(ranking: Seq<ScoreEntry>) -> bool {
    forall|i: int, j: int|
        0 <= i < j < ranking.len() ==> (#[trigger] ranking[i]).score >= (#[trigger] ranking[j]).score
}

/// Whether every entry has a smaller score than the one before it.
pub open spec fn strictly_descending(ranking: Seq<ScoreEntry>) -> bool {
    forall|i: int, j: int|
        0 <= i < j < ranking.len() ==> (#[trigger] ranking[i]).score > (#[trigger] ranking[j]).score
}

/// Whether no two entries have the same score.
pub open spec fn distinct_scores(board: Seq<ScoreEntry>) -> bool {
    forall|i: int, j: int|
        0 <= i < j < board.len() ==> (#[trigger] board[i]).score != (#[trigger] board[j]).score
}

/// What `slot` finds: every entry between `k` and the result has at least
/// `score`, and the result, if inside the ranking, has less.
pub proof fn lemma_slot(ranking: Seq<ScoreEntry>, score: i32, k: int)
    requires
        0 <= k <= ranking.len(),
    ensures
        k <= slot(ranking, score, k) <= ranking.len(),
        forall|j: int| k <= j < slot(ranking, score, k) ==> (#[trigger] ranking[j]).score >= score,
        slot(ranking, score, k) < ranking.len() ==> ranking[slot(ranking, score, k)].score < score,
    decreases ranking.len() - k,
{
    if k < ranking.len() && ranking[k].score >= score {
        lemma_slot(ranking, score, k + 1);
    }
}

/// The ranking holds exactly the board's entries and is in descending order.
pub proof fn lemma_ranked(board: Seq<ScoreEntry>)
    ensures
        ranked(board).len() == board.len(),
        descending(ranked(board)),
        forall|i: int| 0 <= i < board.len() ==> board.contains(#[trigger] ranked(board)[i]),
        forall|j: int| 0 <= j < board.len() ==> ranked(board).contains(#[trigger] board[j]),
    decreases board.len(),
{
    if board.len() > 0 {
        let front = board.drop_last();
        let e = board.last();
        let rest = ranked(front);
        lemma_ranked(front);
        lemma_slot(rest, e.score, 0);
        let s = slot(rest, e.score, 0);
        let all = ranked(board);
        assert(all == rest.insert(s, e));
        assert forall|i: int, j: int| 0 <= i < j < all.len() implies
            (#[trigger] all[i]).score >= (#[trigger] all[j]).score
        by {
            if j < s {
                assert(all[i] == rest[i] && all[j] == rest[j]);
            } else if j == s {
                assert(all[i] == rest[i]);
            } else if i < s {
                assert(all[i] == rest[i] && all[j] == rest[j - 1]);
                if s < j - 1 {
                    assert(rest[s].score >= rest[j - 1].score);
                }
            } else if i == s {
                assert(all[j] == rest[j - 1]);
                if s < j - 1 {
                    assert(rest[s].score >= rest[j - 1].score);
                }
            } else {
                assert(all[i] == rest[i - 1] && all[j] == rest[j - 1]);
            }
        }
        assert forall|i: int| 0 <= i < board.len() implies board.contains(#[trigger] all[i]) by {
            if i == s {
                assert(board[board.len() - 1] == e);
            } else {
                let r = if i < s { i } else { i - 1 };
                assert(all[i] == rest[r]);
                assert(front.contains(rest[r]));
                let w = choose|w: int| 0 <= w < front.len() && front[w] == rest[r];
                assert(board[w] == rest[r]);
            }
        }
        assert forall|j: int| 0 <= j < board.len() implies all.contains(#[trigger] board[j]) by {
            if j == board.len() - 1 {
                assert(all[s] == e);
            } else {
                assert(front[j] == board[j]);
                assert(rest.contains(front[j]));
                let w = choose|w: int| 0 <= w < rest.len() && rest[w] == front[j];
                if w < s {
                    assert(all[w] == rest[w]);
                } else {
                    assert(all[w + 1] == rest[w]);
                }
            }
        }
    }
}

/// Where no two scores are equal, the ranking is strictly descending.
pub proof fn lemma_ranked_strict(board: Seq<ScoreEntry>)
    requires
        distinct_scores(board),
    ensures
        strictly_descending(ranked(board)),
{
    lemma_ranked(board);
    lemma_ranked_is_rearranged(board);
    let all = ranked(board);
    assert forall|i: int, j: int| 0 <= i < j < all.len() implies
        (#[trigger] all[i]).score > (#[trigger] all[j]).score
    by {
        let p = origin(board, i);
        let q = origin(board, j);
        assert(all[i] == board[p] && all[j] == board[q]);
        if p < q {
            assert(board[p].score != board[q].score);
        } else {
            assert(board[q].score != board[p].score);
        }
    }
}

/// The place on the board of the entry that the ranking holds at `rank`.
pub open spec fn origin(board: Seq<ScoreEntry>, rank: int) -> int
    decreases board.len(),
{
    if board.len() == 0 {
        0
    } else {
        let rest = ranked(board.drop_last());
        let s = slot(rest, board.last().score, 0);
        if rank == s {
            board.len() - 1
        } else if rank < s {
            origin(board.drop_last(), rank)
        } else {
            origin(board.drop_last(), rank - 1)
        }
    }
}

/// The ranking is a rearrangement of the board: each rank holds the entry of
/// its own place on the board, and no two ranks share a place.
pub proof fn lemma_ranked_is_rearranged(board: Seq<ScoreEntry>)
    ensures
        forall|i: int|
            0 <= i < board.len() ==> 0 <= #[trigger] origin(board, i) < board.len() && ranked(
                board,
            )[i] == board[origin(board, i)],
        forall|i: int, j: int|
            0 <= i < j < board.len() ==> #[trigger] origin(board, i) != #[trigger] origin(board, j),
    decreases board.len(),
{
    if board.len() > 0 {
        let front = board.drop_last();
        let rest = ranked(front);
        lemma_ranked(front);
        lemma_ranked_is_rearranged(front);
        lemma_slot(rest, board.last().score, 0);
        let s = slot(rest, board.last().score, 0);
        let all = ranked(board);
        assert forall|i: int| 0 <= i < board.len() implies 0 <= #[trigger] origin(board, i)
            < board.len() && all[i] == board[origin(board, i)] by {
            if i < s {
                assert(all[i] == rest[i]);
                assert(rest[i] == front[origin(front, i)]);
            } else if i > s {
                assert(all[i] == rest[i - 1]);
                assert(rest[i - 1] == front[origin(front, i - 1)]);
            }
        }
        assert forall|i: int, j: int| 0 <= i < j < board.len() implies #[trigger] origin(board, i)
            != #[trigger] origin(board, j) by {
            let a = if i < s { i } else { i - 1 };
            let b = if j < s { j } else { j - 1 };
            if i != s && j != s {
                assert(origin(front, a) != origin(front, b));
            } else if i == s {
                assert(0 <= origin(front, b) < front.len());
            } else {
                assert(0 <= origin(front, a) < front.len());
            }
        }
    }
}

/// A board that is already in descending order is its own ranking.
pub proof fn lemma_ranked_of_descending(board: Seq<ScoreEntry>)
    requires
        descending(board),
    ensures
        ranked(board) == board,
    decreases board.len(),
{
    if board.len() > 0 {
        let front = board.drop_last();
        assert forall|i: int, j: int| 0 <= i < j < front.len() implies (#[trigger] front[i]).score
            >= (#[trigger] front[j]).score by {
            assert(board[i].score >= board[j].score);
        }
        lemma_ranked_of_descending(front);
        lemma_slot(front, board.last().score, 0);
        let s = slot(front, board.last().score, 0);
        if s < front.len() {
            assert(board[s].score >= board[board.len() - 1].score);
        }
        assert(front.insert(s, board.last()) =~= board);
    }
}

/// The snapshot law: the top of a board has at most `TOP_K` entries, all of
/// them entries of the board, in descending order of score, and no entry left
/// out of it has a greater score than one in it.
pub proof fn lemma_top_k(board: Seq<ScoreEntry>)
    ensures
        top_k(board).len() <= TOP_K,
        top_k(board).len() == (if board.len() <= TOP_K { board.len() } else { TOP_K as nat }),
        descending(top_k(board)),
        forall|i: int| 0 <= i < top_k(board).len() ==> board.contains(#[trigger] top_k(board)[i]),
        forall|j: int, i: int|
            0 <= j < board.len() && 0 <= i < top_k(board).len() ==> top_k(board).contains(
                #[trigger] board[j],
            ) || (#[trigger] top_k(board)[i]).score >= board[j].score,
{
    lemma_ranked(board);
    let all = ranked(board);
    let top = top_k(board);
    assert forall|i: int| 0 <= i < top.len() implies top[i] == all[i] by {}
    assert forall|i: int, j: int| 0 <= i < j < top.len() implies
        (#[trigger] top[i]).score >= (#[trigger] top[j]).score
    by {
        assert(all[i].score >= all[j].score);
    }
    assert forall|i: int| 0 <= i < top.len() implies board.contains(#[trigger] top[i]) by {
        assert(board.contains(all[i]));
    }
    assert forall|j: int, i: int| 0 <= j < board.len() && 0 <= i < top.len() implies top.contains(
        #[trigger] board[j],
    ) || (#[trigger] top[i]).score >= board[j].score by {
        assert(all.contains(board[j]));
        let w = choose|w: int| 0 <= w < all.len() && all[w] == board[j];
        if w < top.len() {
            assert(top[w] == board[j]);
        } else {
            assert(all[i].score >= all[w].score);
        }
    }
}

/// Where no two scores on the board are equal, its top is strictly descending.
pub proof fn lemma_top_k_strict(board: Seq<ScoreEntry>)
    requires
        distinct_scores(board),
    ensures
        strictly_descending(top_k(board)),
{
    lemma_ranked(board);
    lemma_ranked_strict(board);
    let all = ranked(board);
    let top = top_k(board);
    assert forall|i: int, j: int| 0 <= i < j < top.len() implies
        (#[trigger] top[i]).score > (#[trigger] top[j]).score
    by {
        assert(top[i] == all[i] && top[j] == all[j]);
        assert(all[i].score > all[j].score);
    }
}

/// The top of a board on which no identity stands twice names no identity
/// twice.
pub proof fn lemma_top_k_keeps_distinct(board: Seq<ScoreEntry>)
    requires
        distinct(board),
    ensures
        distinct(top_k(board)),
{
    lemma_ranked(board);
    lemma_ranked_is_rearranged(board);
    let all = ranked(board);
    let top = top_k(board);
    assert forall|i: int, j: int| 0 <= i < j < top.len() implies
        (#[trigger] top[i]).identity@ != (#[trigger] top[j]).identity@
    by {
        let p = origin(board, i);
        let q = origin(board, j);
        assert(top[i] == all[i] && top[j] == all[j]);
        assert(all[i] == board[p] && all[j] == board[q]);
        if p < q {
            assert(board[p].identity@ != board[q].identity@);
        } else {
            assert(board[q].identity@ != board[p].identity@);
        }
    }
}

/// Ranks a board: computes [`ranked`].
pub fn rank(board: &Vec<ScoreEntry>) -> (ranking: Vec<ScoreEntry>)
    ensures
        ranking@ == ranked(board@),
{
    let mut ranking: Vec<ScoreEntry> = Vec::new();
    let mut i: usize = 0;
    proof {
        assert(board@.take(0) =~= Seq::<ScoreEntry>::empty());
    }
    while i < board.len()
        invariant
            i <= board@.len(),
            ranking@ == ranked(board@.take(i as int)),
        decreases board@.len() - i,
    {
        let entry: ScoreEntry = copy_entry(&board[i]);
        let mut k: usize = 0;
        proof {
            lemma_ranked(board@.take(i as int));
        }
        while k < ranking.len() && ranking[k].score >= entry.score
            invariant
                k <= ranking@.len(),
                slot(ranking@, entry.score, k as int) == slot(ranking@, entry.score, 0),
            decreases ranking@.len() - k,
        {
            k = k + 1;
        }
        proof {
            let upto = board@.take(i + 1);
            assert(upto.drop_last() =~= board@.take(i as int));
            assert(upto.last() == board@[i as int]);
        }
        ranking.insert(k, entry);
        i = i + 1;
    }
    proof {
        assert(board@.take(board@.len() as int) =~= board@);
    }
    ranking
}

/// The snapshot of a board: computes [`top_k`].
pub fn top_scores(board: &Vec<ScoreEntry>) -> (top: Vec<ScoreEntry>)
    ensures
        top@ == top_k(board@),
        top@.len() <= TOP_K,
        descending(top@),
{
    proof {
        lemma_top_k(board@);
    }
    let mut top: Vec<ScoreEntry> = rank(board);
    if top.len() > TOP_K {
        top.truncate(TOP_K);
    }
    top
}

} // verus!
