use parkour::movement::MovementSample;
use parkour::replay::{GhostFrame, ReplayGhost};

fn sample(tag: u64, timestamp: u128) -> MovementSample {
    MovementSample { x: tag, y: tag + 1, z: tag + 2, yaw: 3, pitch: 4, timestamp }
}

fn log() -> Vec<MovementSample> {
    vec![sample(10, 0), sample(20, 100), sample(30, 300), sample(40, 300), sample(50, 1000)]
}

/// The pose a host shows for a frame: the blend of two samples by the
/// frame's fraction, or the sample held.
fn shown_x(frame: GhostFrame) -> f64 {
    match frame {
        GhostFrame::Hold { at } => at.x as f64,
        GhostFrame::Between { from, to, numer, denom } => {
            let t: f64 = (numer as f64) / (denom as f64);
            (from.x as f64) + ((to.x as f64) - (from.x as f64)) * t
        }
        _ => panic!("no pose"),
    }
}

#[test]
fn replay_waits_until_the_owner_scores() {
    let mut replay = ReplayGhost::new(log(), 5);
    assert_eq!(replay.first_pose(), Some(sample(10, 0)));
    assert_eq!(replay.update(0, 50), GhostFrame::Waiting);
    assert_eq!(replay.update(0, 5000), GhostFrame::Waiting);
    assert!(!replay.started);
    assert_eq!(replay.cursor, 0);
    assert_eq!(replay.start_time, 5);
}

#[test]
fn replay_starts_at_the_first_update_with_a_score() {
    let mut replay = ReplayGhost::new(log(), 5);
    let frame: GhostFrame = replay.update(1, 7000);
    assert!(replay.started);
    assert_eq!(replay.start_time, 7000);
    assert_eq!(
        frame,
        GhostFrame::Between { from: sample(10, 0), to: sample(20, 100), numer: 0, denom: 100 }
    );
    let _ = replay.update(0, 7050);
    assert!(replay.started);
    assert_eq!(replay.start_time, 7000);
}

#[test]
fn replay_blends_between_samples() {
    let mut replay = ReplayGhost::new(log(), 0);
    let _ = replay.update(1, 1000);
    let frame: GhostFrame = replay.update(1, 1025);
    assert_eq!(
        frame,
        GhostFrame::Between { from: sample(10, 0), to: sample(20, 100), numer: 25, denom: 100 }
    );
    assert_eq!(shown_x(frame), 12.5);
    let frame: GhostFrame = replay.update(1, 1200);
    assert_eq!(
        frame,
        GhostFrame::Between { from: sample(20, 100), to: sample(30, 300), numer: 100, denom: 200 }
    );
    assert_eq!(shown_x(frame), 25.0);
}

#[test]
fn replay_lies_on_a_sample_at_its_timestamp() {
    let mut replay = ReplayGhost::new(log(), 0);
    let _ = replay.update(1, 1000);
    let frame: GhostFrame = replay.update(1, 1100);
    assert_eq!(replay.cursor, 1);
    assert_eq!(shown_x(frame), 20.0);
    match frame {
        GhostFrame::Between { from, numer, .. } => {
            assert_eq!(from, sample(20, 100));
            assert_eq!(numer, 0);
        }
        _ => panic!("expected a blend"),
    }
}

#[test]
fn replay_passes_samples_of_equal_time() {
    let mut replay = ReplayGhost::new(log(), 0);
    let _ = replay.update(1, 1000);
    let frame: GhostFrame = replay.update(1, 1300);
    assert_eq!(replay.cursor, 3);
    assert_eq!(
        frame,
        GhostFrame::Between { from: sample(40, 300), to: sample(50, 1000), numer: 0, denom: 700 }
    );
}

#[test]
fn replay_holds_the_last_sample() {
    let mut replay = ReplayGhost::new(log(), 0);
    let _ = replay.update(1, 1000);
    assert_eq!(replay.update(1, 2000), GhostFrame::Hold { at: sample(50, 1000) });
    assert_eq!(replay.cursor, 4);
    assert_eq!(replay.update(1, 900_000), GhostFrame::Hold { at: sample(50, 1000) });
    assert_eq!(replay.cursor, 4);
}

#[test]
fn replay_cursor_never_rewinds() {
    let mut replay = ReplayGhost::new(log(), 0);
    let _ = replay.update(1, 1000);
    let _ = replay.update(1, 1400);
    assert_eq!(replay.cursor, 3);
    let frame: GhostFrame = replay.update(1, 1010);
    assert_eq!(replay.cursor, 3);
    assert_eq!(
        frame,
        GhostFrame::Between { from: sample(40, 300), to: sample(50, 1000), numer: 0, denom: 700 }
    );
    let _ = replay.update(1, 500);
    assert_eq!(replay.cursor, 3);
}

#[test]
fn replay_before_a_later_sample_of_no_later_time_shows_the_next() {
    let mut replay =
        ReplayGhost::new(vec![sample(1, 500), sample(2, 500), sample(3, 400), sample(4, 900)], 0);
    let frame: GhostFrame = replay.update(1, 0);
    assert_eq!(
        frame,
        GhostFrame::Between { from: sample(1, 500), to: sample(2, 500), numer: 1, denom: 1 }
    );
    assert_eq!(shown_x(frame), 2.0);
    let frame: GhostFrame = replay.update(1, 500);
    assert_eq!(replay.cursor, 2);
    assert_eq!(
        frame,
        GhostFrame::Between { from: sample(3, 400), to: sample(4, 900), numer: 100, denom: 500 }
    );
}

#[test]
fn replay_of_an_empty_log_is_over_at_once() {
    let mut replay = ReplayGhost::new(Vec::new(), 0);
    assert_eq!(replay.first_pose(), None);
    assert_eq!(replay.update(0, 10), GhostFrame::Finished);
    assert!(!replay.started);
    assert_eq!(replay.update(3, 20), GhostFrame::Finished);
    assert!(replay.started);
    assert_eq!(replay.start_time, 20);
}

#[test]
fn replay_of_one_sample_holds_it() {
    let mut replay = ReplayGhost::new(vec![sample(9, 40)], 0);
    assert_eq!(replay.update(1, 0), GhostFrame::Hold { at: sample(9, 40) });
    assert_eq!(replay.update(1, 100), GhostFrame::Hold { at: sample(9, 40) });
}

#[test]
fn replay_clock_running_backwards_counts_as_no_time() {
    let mut replay = ReplayGhost::new(log(), 0);
    let _ = replay.update(1, 1000);
    let frame: GhostFrame = replay.update(1, 400);
    assert_eq!(
        frame,
        GhostFrame::Between { from: sample(10, 0), to: sample(20, 100), numer: 0, denom: 100 }
    );
}
