//! The score board: each identity's best score ever, in order of first entry.

use vstd::prelude::*;

verus! {

/// One identity with its best score.
#[derive(Clone, Debug, PartialEq, Eq)]
pub struct ScoreEntry {
    pub identity: String,
    pub score: i32,
}

/// Index of the first entry at or after `k` that belongs to `id`, or the
/// board's length if there is none.
pub open spec fn scan(board: Seq<ScoreEntry>, id: Seq<char>, k: int) -> int
    decreases board.len() - k,
{
    if 0 <= k < board.len() && board[k].identity@ != id {
        scan(board, id, k + 1)
    } else {
        k
    }
}

/// Index of the first entry of `id`, or the board's length if it has none.
pub open spec fn index_of(board: Seq<ScoreEntry>, id: Seq<char>) -> int {
    scan(board, id, 0)
}

/// Whether no identity has two entries.
pub open spec fn distinct(board: Seq<ScoreEntry>) -> bool {
    forall|i: int, j: int|
        0 <= i < j < board.len() ==> (#[trigger] board[i]).identity@ != (#[trigger] board[j]).identity@
}

/// The board with the score of `identity` set to `score`: in place where it
/// has an entry, as a new last entry where it has none.
pub open spec fn assign(board: Seq<ScoreEntry>, identity: String, score: i32) -> Seq<ScoreEntry> {
    let k = index_of(board, identity@);
    if k < board.len() {
        board.update(k, ScoreEntry { identity, score })
    } else {
        board.push(ScoreEntry { identity, score })
    }
}

/// The board after `identity` reached `score`: the score is taken if the
/// identity is new or the score is greater than its best.
pub open spec fn raised(board: Seq<ScoreEntry>, identity: String, score: i32) -> Seq<ScoreEntry> {
    let k = index_of(board, identity@);
    if k < board.len() && score <= board[k].score {
        board
    } else {
        assign(board, identity, score)
    }
}

/// The board that a list of entries gives when they are assigned in order,
/// so that of two entries of one identity the later sets the score.
pub open spec fn collect(list: Seq<ScoreEntry>) -> Seq<ScoreEntry>
    decreases list.len(),
{
    if list.len() == 0 {
        Seq::<ScoreEntry>::empty()
    } else {
        assign(collect(list.drop_last()), list.last().identity, list.last().score)
    }
}

/// Whether two boards list the same identities with the same scores in the
/// same order.
pub open spec fn same_entries(a: Seq<ScoreEntry>, b: Seq<ScoreEntry>) -> bool {
    &&& a.len() == b.len()
    &&& forall|i: int|
        0 <= i < a.len() ==> (#[trigger] a[i]).identity@ == b[i].identity@ && a[i].score
            == b[i].score
}

/// What `scan` finds: nothing of `id` lies between `k` and the result, and
/// the result, if inside the board, is an entry of `id`.
pub proof fn lemma_scan(board: Seq<ScoreEntry>, id: Seq<char>, k: int)
    requires
        0 <= k <= board.len(),
    ensures
        k <= scan(board, id, k) <= board.len(),
        forall|j: int| k <= j < scan(board, id, k) ==> (#[trigger] board[j]).identity@ != id,
        scan(board, id, k) < board.len() ==> board[scan(board, id, k)].identity@ == id,
    decreases board.len() - k,
{
    if k < board.len() && board[k].identity@ != id {
        lemma_scan(board, id, k + 1);
    }
}

/// Assigning a score keeps identities distinct.
pub proof fn lemma_assign_keeps_distinct(board: Seq<ScoreEntry>, identity: String, score: i32)
    requires
        distinct(board),
    ensures
        distinct(assign(board, identity, score)),
        distinct(raised(board, identity, score)),
{
    lemma_scan(board, identity@, 0);
    let k = index_of(board, identity@);
    let after = assign(board, identity, score);
    assert forall|i: int, j: int| 0 <= i < j < after.len() implies (#[trigger] after[i]).identity@
        != (#[trigger] after[j]).identity@ by {
        if k < board.len() {
            assert(board[i].identity@ != board[j].identity@);
        } else {
            if j < board.len() {
                assert(board[i].identity@ != board[j].identity@);
            } else {
                assert(board[i].identity@ != identity@);
            }
        }
    }
}

/// Best scores only rise: reaching a score removes no entry, moves none, and
/// lowers none; afterwards the identity has an entry of at least that score.
pub proof fn lemma_raised_never_lowers(board: Seq<ScoreEntry>, identity: String, score: i32)
    ensures
        raised(board, identity, score).len() >= board.len(),
        forall|k: int|
            0 <= k < board.len() ==> (#[trigger] raised(board, identity, score)[k]).identity@
                == board[k].identity@ && raised(board, identity, score)[k].score >= board[k].score,
        index_of(raised(board, identity, score), identity@) < raised(board, identity, score).len(),
        raised(board, identity, score)[index_of(raised(board, identity, score), identity@)].score
            >= score,
{
    lemma_scan(board, identity@, 0);
    let after = raised(board, identity, score);
    let k = index_of(board, identity@);
    lemma_scan(after, identity@, 0);
    let found = index_of(after, identity@);
    if k < board.len() {
        assert(after[k].identity@ == identity@);
        if found > k {
            assert(after[k].identity@ != identity@);
        }
        if found < k {
            assert(board[found].identity@ != identity@);
        }
    } else {
        assert(after[board.len() as int].identity@ == identity@);
        if found < board.len() {
            assert(board[found].identity@ != identity@);
        }
        if found > board.len() {
            assert(after[board.len() as int].identity@ != identity@);
        }
    }
}

/// A board built from any list has distinct identities.
pub proof fn lemma_collect_is_distinct(list: Seq<ScoreEntry>)
    ensures
        distinct(collect(list)),
    decreases list.len(),
{
    if list.len() > 0 {
        lemma_collect_is_distinct(list.drop_last());
        lemma_assign_keeps_distinct(
            collect(list.drop_last()),
            list.last().identity,
            list.last().score,
        );
    }
}

/// A list with distinct identities is its own board.
pub proof fn lemma_collect_of_distinct(list: Seq<ScoreEntry>)
    requires
        distinct(list),
    ensures
        collect(list) == list,
    decreases list.len(),
{
    if list.len() > 0 {
        let front = list.drop_last();
        assert forall|i: int, j: int| 0 <= i < j < front.len() implies (#[trigger] front[i]).identity@
            != (#[trigger] front[j]).identity@ by {
            assert(list[i].identity@ != list[j].identity@);
        }
        lemma_collect_of_distinct(front);
        lemma_scan(front, list.last().identity@, 0);
        let k = index_of(front, list.last().identity@);
        if k < front.len() {
            assert(list[k].identity@ != list[list.len() - 1].identity@);
        }
        assert(front.push(list.last()) =~= list);
    }
}

/// A copy of one entry.
pub fn copy_entry(entry: &ScoreEntry) -> (copy: ScoreEntry)
    ensures
        copy == *entry,
{
    ScoreEntry { identity: entry.identity.clone(), score: entry.score }
}

/// A copy of a board.
pub fn copy_board(board: &Vec<ScoreEntry>) -> (copy: Vec<ScoreEntry>)
    ensures
        copy@ == board@,
{
    let mut copy: Vec<ScoreEntry> = Vec::new();
    let mut i: usize = 0;
    while i < board.len()
        invariant
            i <= board@.len(),
            copy@ == board@.take(i as int),
        decreases board@.len() - i,
    {
        copy.push(copy_entry(&board[i]));
        proof {
            assert(copy@ =~= board@.take(i + 1));
        }
        i = i + 1;
    }
    proof {
        assert(board@.take(board@.len() as int) =~= board@);
    }
    copy
}

/// Index of the first entry of `identity` on the board, or the board's
/// length if it has none.
pub fn find_identity(board: &Vec<ScoreEntry>, identity: &String) -> (k: usize)
    ensures
        k == index_of(board@, identity@),
        k <= board@.len(),
{
    let mut i: usize = 0;
    while i < board.len() && board[i].identity != *identity
        invariant
            i <= board@.len(),
            scan(board@, identity@, i as int) == index_of(board@, identity@),
        decreases board@.len() - i,
    {
        i = i + 1;
    }
    i
}

/// Decides [`same_entries`].
pub fn same_board(a: &Vec<ScoreEntry>, b: &Vec<ScoreEntry>) -> (same: bool)
    ensures
        same == same_entries(a@, b@),
{
    if a.len() != b.len() {
        return false;
    }
    let mut i: usize = 0;
    while i < a.len()
        invariant
            a@.len() == b@.len(),
            i <= a@.len(),
            forall|j: int|
                0 <= j < i ==> (#[trigger] a@[j]).identity@ == b@[j].identity@ && a@[j].score
                    == b@[j].score,
        decreases a@.len() - i,
    {
        if a[i].identity != b[i].identity || a[i].score != b[i].score {
            return false;
        }
        i = i + 1;
    }
    true
}

} // verus!
