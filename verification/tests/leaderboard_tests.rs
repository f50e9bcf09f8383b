use parkour::board::{copy_board, copy_entry, find_identity, same_board, ScoreEntry};
use parkour::leaderboard::{
    copy_log, copy_record, raise_score, set_score, to_board_score, HighScore, LeaderboardStore,
    SaveData,
};
use parkour::movement::MovementSample;
use parkour::ranking::{rank, top_scores, TOP_K};

fn entry(identity: &str, score: i32) -> ScoreEntry {
    ScoreEntry { identity: identity.to_string(), score }
}

fn moves(n: u128) -> Vec<MovementSample> {
    let mut log: Vec<MovementSample> = Vec::new();
    for i in 0..n {
        log.push(MovementSample { x: 1, y: 2, z: 3, yaw: 4, pitch: 5, timestamp: i * 50 });
    }
    log
}

#[test]
fn first_finished_run_becomes_the_record() {
    let mut store = LeaderboardStore::new();
    let request: Option<SaveData> = store.submit("ann".to_string(), 5, 42, moves(3));
    let record: HighScore =
        HighScore { username: "ann".to_string(), score: 5, seed: 42, movements: moves(3) };
    assert_eq!(store.highscore, Some(record.clone()));
    assert_eq!(store.top(), vec![entry("ann", 5)]);
    let data: SaveData = request.unwrap();
    assert_eq!(data.highscore, Some(record));
    assert_eq!(data.scoreboard[0], entry("ann", 5));
    assert_eq!(data.scoreboard.len(), 1);
    assert_eq!(store.last_saved, vec![entry("ann", 5)]);
}

#[test]
fn run_without_score_sets_no_record() {
    let mut store = LeaderboardStore::new();
    let request: Option<SaveData> = store.submit("ann".to_string(), 0, 42, moves(0));
    assert_eq!(store.highscore, None);
    assert_eq!(store.scores, vec![entry("ann", 0)]);
    assert_eq!(request.unwrap().scoreboard, vec![entry("ann", 0)]);
}

#[test]
fn record_falls_only_to_a_greater_score() {
    let mut store = LeaderboardStore::new();
    let _ = store.submit("ann".to_string(), 5, 1, moves(1));
    let same: Option<SaveData> = store.submit("bob".to_string(), 5, 2, moves(2));
    assert_eq!(store.highscore.as_ref().unwrap().username, "ann");
    assert!(same.is_some());
    let lower: Option<SaveData> = store.submit("ann".to_string(), 4, 3, moves(2));
    assert!(lower.is_none());
    assert_eq!(store.highscore.as_ref().unwrap().seed, 1);
    let higher: Option<SaveData> = store.submit("bob".to_string(), 6, 4, moves(2));
    let record: HighScore =
        HighScore { username: "bob".to_string(), score: 6, seed: 4, movements: moves(2) };
    assert_eq!(store.highscore, Some(record.clone()));
    assert_eq!(higher.unwrap().highscore, Some(record));
}

#[test]
fn new_record_is_saved_even_if_the_board_stands() {
    let mut store = LeaderboardStore::load(SaveData {
        highscore: None,
        scoreboard: vec![entry("ann", 9)],
    });
    let request: Option<SaveData> = store.submit("ann".to_string(), 3, 8, moves(1));
    let data: SaveData = request.unwrap();
    assert_eq!(data.highscore.unwrap().score, 3);
    assert_eq!(data.scoreboard, vec![entry("ann", 9)]);
    assert_eq!(store.scores, vec![entry("ann", 9)]);
}

#[test]
fn best_scores_only_rise() {
    let mut store = LeaderboardStore::new();
    assert!(store.propose("ann".to_string(), 3).is_some());
    assert!(store.propose("ann".to_string(), 2).is_none());
    assert!(store.propose("ann".to_string(), 3).is_none());
    assert_eq!(store.scores, vec![entry("ann", 3)]);
    let request: Option<SaveData> = store.propose("ann".to_string(), 4);
    assert_eq!(store.scores, vec![entry("ann", 4)]);
    assert_eq!(request.unwrap().scoreboard, vec![entry("ann", 4)]);
    assert_eq!(store.highscore, None);
}

#[test]
fn snapshot_holds_the_fifteen_highest() {
    let mut store = LeaderboardStore::new();
    for i in 0..20u32 {
        let name: String = format!("p{}", i);
        let score: u32 = (i * 7) % 20 + 1;
        let _ = store.propose(name, score);
    }
    let top: Vec<ScoreEntry> = store.top();
    assert_eq!(TOP_K, 15);
    assert_eq!(top.len(), 15);
    for i in 1..top.len() {
        assert!(top[i - 1].score > top[i].score);
    }
    for e in &top {
        assert!(store.scores.contains(e));
    }
    for e in &store.scores {
        assert!(top.contains(e) || top.iter().all(|t| t.score >= e.score));
    }
    assert_eq!(top[0].score, 20);
    assert_eq!(top[14].score, 6);
    assert_eq!(store.last_saved, top);
}

#[test]
fn low_score_outside_the_top_asks_for_no_save() {
    let mut store = LeaderboardStore::new();
    for i in 0..15u32 {
        let _ = store.propose(format!("p{}", i), 100 + i);
    }
    assert!(store.propose("late".to_string(), 50).is_none());
    assert_eq!(store.scores.len(), 16);
    assert!(store.propose("late".to_string(), 100).is_none());
    assert!(store.propose("late".to_string(), 101).is_some());
    assert_eq!(store.last_saved.len(), 15);
    assert!(store.last_saved.contains(&entry("late", 101)));
    assert!(!store.last_saved.contains(&entry("p0", 100)));
}

#[test]
fn equal_scores_rank_by_first_entry() {
    let board: Vec<ScoreEntry> =
        vec![entry("a", 3), entry("b", 7), entry("c", 3), entry("d", 7), entry("e", 5)];
    assert_eq!(
        rank(&board),
        vec![entry("b", 7), entry("d", 7), entry("e", 5), entry("a", 3), entry("c", 3)]
    );
    assert_eq!(top_scores(&board), rank(&board));
    assert_eq!(rank(&Vec::new()), Vec::new());
}

#[test]
fn load_lets_the_later_entry_win() {
    let data: SaveData = SaveData {
        highscore: Some(HighScore {
            username: "ann".to_string(),
            score: 12,
            seed: 3,
            movements: moves(2),
        }),
        scoreboard: vec![entry("ann", 12), entry("bob", 4), entry("ann", 2)],
    };
    let store = LeaderboardStore::load(data.clone());
    assert_eq!(store.scores, vec![entry("ann", 2), entry("bob", 4)]);
    assert_eq!(store.last_saved, data.scoreboard);
    assert_eq!(store.highscore, data.highscore);
}

#[test]
fn reloading_a_saved_snapshot_restores_it() {
    let mut store = LeaderboardStore::new();
    let mut last: Option<SaveData> = None;
    for i in 0..18u32 {
        let request: Option<SaveData> = store.submit(format!("p{}", i), 30 - i, 5, moves(1));
        if request.is_some() {
            last = request;
        }
    }
    let data: SaveData = last.unwrap();
    let reloaded = LeaderboardStore::load(data.clone());
    assert_eq!(reloaded.highscore, store.highscore);
    assert_eq!(reloaded.top(), store.top());
    assert_eq!(reloaded.top(), data.scoreboard);
    assert_eq!(reloaded.last_saved, store.last_saved);
}

#[test]
fn save_data_keeps_at_most_fifteen() {
    let mut board: Vec<ScoreEntry> = Vec::new();
    for i in 0..17i32 {
        board.push(entry("x", 100 - i));
    }
    let data: SaveData = SaveData::new(&None, &board);
    assert_eq!(data.scoreboard, board[..15].to_vec());
    assert_eq!(data.highscore, None);
    let short: SaveData = SaveData::new(&None, &board[..4].to_vec());
    assert_eq!(short.scoreboard, board[..4].to_vec());
}

#[test]
fn board_score_reads_the_bits_as_signed() {
    assert_eq!(to_board_score(0), 0);
    assert_eq!(to_board_score(17), 17);
    assert_eq!(to_board_score(2147483647), 2147483647);
    assert_eq!(to_board_score(2147483648), -2147483648);
    assert_eq!(to_board_score(u32::MAX), -1);
}

#[test]
fn helpers_copy_and_compare() {
    let board: Vec<ScoreEntry> = vec![entry("a", 1), entry("b", 2)];
    assert_eq!(copy_board(&board), board);
    assert_eq!(copy_entry(&board[1]), entry("b", 2));
    assert!(same_board(&board, &copy_board(&board)));
    assert!(!same_board(&board, &vec![entry("a", 1)]));
    assert!(!same_board(&board, &vec![entry("a", 1), entry("b", 3)]));
    assert!(!same_board(&board, &vec![entry("a", 1), entry("c", 2)]));
    assert_eq!(find_identity(&board, &"b".to_string()), 1);
    assert_eq!(find_identity(&board, &"z".to_string()), 2);
    assert_eq!(copy_log(&moves(3)), moves(3));
    let record: Option<HighScore> =
        Some(HighScore { username: "a".to_string(), score: 1, seed: 2, movements: moves(2) });
    assert_eq!(copy_record(&record), record);
    assert_eq!(copy_record(&None), None);
}

#[test]
fn set_and_raise_differ_on_lower_scores() {
    let mut board: Vec<ScoreEntry> = vec![entry("a", 5)];
    raise_score(&mut board, "a".to_string(), 3);
    assert_eq!(board, vec![entry("a", 5)]);
    set_score(&mut board, "a".to_string(), 3);
    assert_eq!(board, vec![entry("a", 3)]);
    raise_score(&mut board, "b".to_string(), -4);
    assert_eq!(board, vec![entry("a", 3), entry("b", -4)]);
}
