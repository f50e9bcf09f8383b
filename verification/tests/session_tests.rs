use parkour::geometry::BlockPos;
use parkour::leaderboard::{HighScore, LeaderboardStore, SaveData};
use parkour::movement::MovementSample;
use parkour::replay::GhostFrame;
use parkour::run::RunState;
use parkour::session::{Landing, Session};

fn blocks_of(run: &RunState) -> Vec<BlockPos> {
    run.blocks.iter().copied().collect()
}

fn record(seed: u64, movements: Vec<MovementSample>) -> Option<HighScore> {
    Some(HighScore { username: "champ".to_string(), score: 30, seed, movements })
}

fn pose(timestamp: u128) -> MovementSample {
    MovementSample { x: 0, y: 0, z: 0, yaw: 0, pitch: 0, timestamp }
}

#[test]
fn replay_request_without_a_record_is_turned_down() {
    let mut session = Session::spawn(3, 0);
    let before: Vec<BlockPos> = blocks_of(&session.run);
    assert!(!session.request_replay(&None, 10));
    assert!(session.replay.is_none());
    assert_eq!(blocks_of(&session.run), before);
    assert_eq!(session.run.seed, 3);
    assert_eq!(session.update_replay(20), None);
}

#[test]
fn replay_of_an_empty_record_ends_at_once() {
    let mut session = Session::spawn(3, 0);
    assert!(session.request_replay(&record(42, Vec::new()), 10));
    assert!(session.replay.is_some());
    assert_eq!(session.update_replay(11), Some(GhostFrame::Finished));
    assert!(session.replay.is_none());
    assert_eq!(session.run.seed, 42);
    assert_eq!(blocks_of(&session.run), blocks_of(&RunState::start(42, 0)));
    assert_eq!(session.update_replay(12), None);
}

#[test]
fn replay_request_puts_the_run_on_the_recorded_path() {
    let mut session = Session::spawn(3, 0);
    let _ = session.run.land(2, 5, 5000);
    assert!(session.request_replay(&record(42, vec![pose(0), pose(100)]), 10));
    assert_eq!(session.run.score, 0);
    assert_eq!(session.run.combo, 2);
    assert_eq!(session.run.seed, 42);
    assert_eq!(blocks_of(&session.run), blocks_of(&RunState::start(42, 0)));
    let replay = session.replay.as_ref().unwrap();
    assert_eq!(replay.movements, vec![pose(0), pose(100)]);
    assert_eq!(replay.cursor, 0);
    assert!(!replay.started);
    assert_eq!(replay.start_time, 10);
}

#[test]
fn replay_follows_the_owners_first_score() {
    let mut session = Session::spawn(3, 0);
    assert!(session.request_replay(&record(42, vec![pose(0), pose(100)]), 10));
    assert_eq!(session.update_replay(50), Some(GhostFrame::Waiting));
    let _ = session.run.land(1, 60, 1000);
    assert_eq!(
        session.update_replay(70),
        Some(GhostFrame::Between { from: pose(0), to: pose(100), numer: 0, denom: 100 })
    );
    assert_eq!(
        session.update_replay(110),
        Some(GhostFrame::Between { from: pose(0), to: pose(100), numer: 40, denom: 100 })
    );
    assert_eq!(session.update_replay(170), Some(GhostFrame::Hold { at: pose(100) }));
    assert!(session.replay.is_some());
}

#[test]
fn a_new_replay_request_supersedes_the_old() {
    let mut session = Session::spawn(3, 0);
    assert!(session.request_replay(&record(42, vec![pose(0), pose(100)]), 10));
    let _ = session.run.land(1, 60, 1000);
    let _ = session.update_replay(500);
    assert!(session.request_replay(&record(43, vec![pose(7)]), 600));
    let replay = session.replay.as_ref().unwrap();
    assert_eq!(replay.movements, vec![pose(7)]);
    assert!(!replay.started);
    assert_eq!(session.run.seed, 43);
}

#[test]
fn landing_proposes_the_new_score() {
    let mut session = Session::spawn(3, 0);
    let mut store = LeaderboardStore::new();
    let landing: Landing = session.on_landing(&mut store, "ann".to_string(), 2, 100, 2000);
    assert_eq!(landing.materials.len(), 2);
    assert_eq!(session.run.score, 2);
    assert_eq!(session.run.combo, 2);
    let data: SaveData = landing.request.unwrap();
    assert_eq!(data.scoreboard.len(), 1);
    assert_eq!(data.scoreboard[0].identity, "ann");
    assert_eq!(data.scoreboard[0].score, 2);
    assert_eq!(data.highscore, None);
    assert_eq!(store.highscore, None);
}

#[test]
fn finish_hands_the_run_to_the_store_and_starts_over() {
    let mut session = Session::spawn(3, 0);
    let mut store = LeaderboardStore::new();
    assert!(session.request_replay(&record(3, vec![pose(0)]), 1));
    let _ = session.on_landing(&mut store, "ann".to_string(), 5, 100, 5000);
    session.run.recorder.sample(1, 2, 3, 4, 5, 150);
    let request: Option<SaveData> = session.finish(&mut store, "ann".to_string(), 99, 9000);
    let expected: HighScore = HighScore {
        username: "ann".to_string(),
        score: 5,
        seed: 3,
        movements: vec![MovementSample { x: 1, y: 2, z: 3, yaw: 4, pitch: 5, timestamp: 50 }],
    };
    assert_eq!(store.highscore, Some(expected.clone()));
    let data: SaveData = request.unwrap();
    assert_eq!(data.highscore, Some(expected));
    assert_eq!(data.scoreboard[0].identity, "ann");
    assert_eq!(data.scoreboard[0].score, 5);
    assert!(session.replay.is_none());
    assert_eq!(session.run.seed, 99);
    assert_eq!(session.run.score, 0);
    assert_eq!(session.run.combo, 0);
    assert!(session.run.recorder.samples.is_empty());
    assert_eq!(blocks_of(&session.run), blocks_of(&RunState::start(99, 0)));
}

#[test]
fn disconnect_hands_the_run_to_the_store() {
    let mut session = Session::spawn(3, 0);
    let mut store = LeaderboardStore::new();
    let _ = session.on_landing(&mut store, "ann".to_string(), 1, 100, 5000);
    let request: Option<SaveData> = session.disconnect(&mut store, "ann".to_string());
    assert_eq!(store.highscore.as_ref().unwrap().score, 1);
    assert_eq!(store.highscore.as_ref().unwrap().seed, 3);
    assert_eq!(request.unwrap().highscore, store.highscore);
}
