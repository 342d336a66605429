use qbz::engine_queue::{DirectEngine, WriteFollowUp, WriterStep};

#[test]
fn first_append_starts_playback() {
    let mut e = DirectEngine::new();
    assert!(e.empty());
    assert_eq!(e.writer_next(), WriterStep::AwaitSource);
    assert!(e.append());
    assert!(e.is_playing);
    assert!(!e.empty());
    assert!(!e.append());
    assert_eq!(e.queued, 2);
}

#[test]
fn writer_counts_frames_and_hands_over_without_a_gap() {
    let mut e = DirectEngine::new();
    e.append();
    e.append();
    assert_eq!(e.writer_next(), WriterStep::Fill);
    assert_eq!(e.queued, 1);
    assert_eq!(e.writer_wrote(16384, 2, false), WriteFollowUp::Continue);
    assert_eq!(e.position_frames, 8192);
    assert_eq!(e.writer_wrote(96000, 2, false), WriteFollowUp::Continue);
    assert_eq!(e.position_secs(48000), 1);
    assert_eq!(e.duration_secs(44100), 1);
    assert_eq!(e.writer_wrote(100, 2, true), WriteFollowUp::Gapless);
    assert_eq!(e.position_frames, 0);
    assert_eq!(e.queued, 0);
    assert!(e.is_playing);
    assert!(e.take_source_transition());
    assert!(!e.take_source_transition());
}

#[test]
fn last_source_drains_and_empties() {
    let mut e = DirectEngine::new();
    e.append();
    e.writer_next();
    assert_eq!(e.writer_wrote(0, 2, true), WriteFollowUp::Drain);
    assert!(e.empty());
    assert!(!e.has_current);
    assert!(!e.take_source_transition());
    assert!(e.append());
    assert_eq!(e.position_frames, 0);
}

#[test]
fn paused_writer_waits_and_stop_exits() {
    let mut e = DirectEngine::new();
    e.append();
    e.pause();
    assert_eq!(e.writer_next(), WriterStep::AwaitPlay);
    e.play();
    assert_eq!(e.writer_next(), WriterStep::Fill);
    assert!(e.stop());
    assert!(!e.is_playing);
    assert!(!e.stop());
    assert_eq!(e.writer_next(), WriterStep::Exit);
    e.writer_exited();
    assert!(!e.is_playing);
}
