use qbz::alsa_ids::{normalize_device_id_to_stable, resolve_stable_to_current_hw, ProcCardInfo};
use qbz::cmaf::is_isomp4;
use qbz::library::{plan_track_move, TrackMovePlan};
use qbz::models::{has_blocking_restriction, StreamRestriction};
use qbz::playback::QueueTrack;
use qbz::queue::QueueManager;
use qbz::shuffle::{random_permutation, shuffle_with_draws};
use qbz::shared_state::{BitPerfectMode, SharedState};
use qbz::streaming::{BufferedMediaSource, SeekFrom, StreamingConfig};

fn track(id: u64) -> QueueTrack {
    QueueTrack {
        id,
        title: format!("Track {}", id),
        version: None,
        artist: "Artist".to_string(),
        album: "Album".to_string(),
        duration_secs: 180,
        artwork_url: None,
        hires: false,
        bit_depth: None,
        sample_rate_bits: None,
        is_local: false,
        album_id: None,
        artist_id: None,
        streamable: true,
        source: None,
        parental_warning: false,
        source_item_id_hint: None,
    }
}

fn is_permutation(order: &[usize], n: usize) -> bool {
    let mut seen = vec![false; n];
    if order.len() != n {
        return false;
    }
    for &i in order {
        if i >= n || seen[i] {
            return false;
        }
        seen[i] = true;
    }
    true
}

#[test]
fn shuffle_order_stays_a_permutation() {
    let mut q = QueueManager::new();
    for id in 1..=6 {
        q.add_track(track(id));
    }
    q.set_shuffle(true);
    assert!(is_permutation(&q.shuffle_order(), 6));
    q.add_track(track(7));
    assert!(is_permutation(&q.shuffle_order(), 7));
    q.add_tracks(vec![track(8), track(9)]);
    assert!(is_permutation(&q.shuffle_order(), 9));
    q.remove_track(3);
    assert!(is_permutation(&q.shuffle_order(), 8));
    q.play_index(0);
    let _moved = q.move_track(0, 2);
    assert!(is_permutation(&q.shuffle_order(), 8));
}

#[test]
fn history_never_exceeds_fifty_entries() {
    let mut q = QueueManager::new();
    for id in 0..70 {
        q.add_track(track(id));
    }
    for i in 0..70 {
        q.play_index(i);
    }
    assert_eq!(q.history_indices().len(), 50);
    assert_eq!(*q.history_indices().last().unwrap(), 68);
}

#[test]
fn track_added_next_plays_next() {
    let mut q = QueueManager::new();
    q.add_tracks(vec![track(1), track(2), track(3)]);
    q.play_index(1);
    q.add_track_next(track(99));
    assert_eq!(q.peek_next().unwrap().id, 99);
    assert_eq!(q.next().unwrap().id, 99);
}

#[test]
fn stop_after_marker_fires_once() {
    let mut q = QueueManager::new();
    q.add_tracks(vec![track(1), track(2)]);
    q.set_stop_after(2);
    assert!(!q.consume_stop_after_if(1));
    assert!(q.consume_stop_after_if(2));
    assert!(!q.consume_stop_after_if(2));
    assert_eq!(q.get_stop_after(), None);
}

#[test]
fn read_returns_what_was_pushed() {
    let (mut source, writer) = BufferedMediaSource::new(StreamingConfig::fast_start(), None);
    writer.push_chunk(&mut source, b"abc").unwrap();
    let mut buf = [0u8; 3];
    assert_eq!(source.read(&mut buf).unwrap(), 3);
    writer.push_chunk(&mut source, b"defgh").unwrap();
    let mut buf = [0u8; 4];
    assert_eq!(source.read(&mut buf).unwrap(), 4);
    assert_eq!(&buf, b"defg");
}

#[test]
fn seek_then_read_after_completion() {
    let (mut source, writer) = BufferedMediaSource::new(StreamingConfig::fast_start(), None);
    writer.push_chunk(&mut source, b"0123456789").unwrap();
    writer.complete(&mut source).unwrap();
    assert_eq!(source.seek(SeekFrom::Start(10)).unwrap(), 10);
    let mut buf = [0u8; 2];
    assert_eq!(source.read(&mut buf).unwrap(), 0);
    assert_eq!(source.seek(SeekFrom::Start(7)).unwrap(), 7);
    assert_eq!(source.read(&mut buf).unwrap(), 2);
    assert_eq!(&buf, b"78");
}

#[test]
fn pause_freezes_position_and_time_moves_it_forward() {
    let mut s = SharedState::new();
    s.set_duration(300);
    s.set_playing(true);
    s.start_playback_timer_at(10, 1_000_000);
    assert_eq!(s.position_at(1_000_000), 10);
    assert_eq!(s.position_at(1_004_999), 14);
    assert_eq!(s.position_at(1_500_000), 300);
    s.pause_playback_timer_at(1_020_000);
    assert_eq!(s.position_at(9_000_000), 30);
    assert_eq!(s.seek_target(1000), 300);
    assert_eq!(s.seek_target(12), 12);
}

#[test]
fn bit_perfect_mode_reads_back() {
    let mut s = SharedState::new();
    assert_eq!(s.get_bit_perfect_mode(), None);
    for m in [BitPerfectMode::Disabled, BitPerfectMode::DirectHardware, BitPerfectMode::PluginFallback] {
        s.set_bit_perfect_mode(Some(m));
        assert_eq!(s.get_bit_perfect_mode(), Some(m));
    }
    s.set_stream_quality(96000, 24);
    assert_eq!(s.stream_quality(), (Some(96000), Some(24)));
}

#[test]
fn stable_device_id_resolves_back() {
    let cards = vec![ProcCardInfo {
        number: "4".to_string(),
        short_name: "DacMagic".to_string(),
        long_name: "Cambridge DacMagic".to_string(),
        pcm_playback_devices: Vec::new(),
        stream0: None,
    }];
    let stable = normalize_device_id_to_stable("hw:4,1", &cards);
    assert_eq!(stable, "front:CARD=DacMagic,DEV=1");
    assert_eq!(resolve_stable_to_current_hw(&stable, &cards), Some("hw:4,1".to_string()));
}

#[test]
fn media_and_restriction_checks() {
    assert!(is_isomp4(b"\0\0\0\x18ftypdash\0\0"));
    assert!(!is_isomp4(b"fLaC\0\0\0\0\0\0\0\0"));
    assert!(!is_isomp4(b"\0\0\0\x18ftyp"));
    let r = |c: &str| StreamRestriction { code: c.to_string() };
    assert!(has_blocking_restriction(&vec![r("UserUncredentialed"), r("SampleRestrictedByRightHolders")]));
    assert!(!has_blocking_restriction(&vec![r("UserUncredentialed")]));
}

#[test]
fn clicking_an_upcoming_track_plays_the_one_shown() {
    let mut q = QueueManager::new();
    for id in 1..=12 {
        q.add_track(track(id));
    }
    q.play_index(4);
    q.set_shuffle(true);
    let shown = q.get_state().upcoming;
    assert!(shown.len() > 5);
    let played = q.play_upcoming_at(5).unwrap();
    assert_eq!(played.id, shown[5].id);

    let mut plain = QueueManager::new();
    for id in 1..=12 {
        plain.add_track(track(id));
    }
    plain.play_index(2);
    let shown = plain.get_state().upcoming;
    assert_eq!(plain.play_upcoming_at(3).unwrap().id, shown[3].id);
}

fn apply_move(positions: &mut Vec<i32>, i: usize, new_position: i32) {
    match plan_track_move(Some(positions[i]), new_position) {
        TrackMovePlan::ShiftDown { from, to } => {
            for p in positions.iter_mut() {
                if from <= *p && *p < to {
                    *p += 1;
                }
            }
        }
        TrackMovePlan::ShiftUp { from, to } => {
            for p in positions.iter_mut() {
                if from < *p && *p <= to {
                    *p -= 1;
                }
            }
        }
        TrackMovePlan::Insert | TrackMovePlan::Unchanged => {}
    }
    positions[i] = new_position;
}

#[test]
fn moving_a_custom_order_track_keeps_a_permutation() {
    assert_eq!(plan_track_move(None, 3), TrackMovePlan::Insert);
    assert_eq!(plan_track_move(Some(2), 2), TrackMovePlan::Unchanged);
    assert_eq!(plan_track_move(Some(5), 1), TrackMovePlan::ShiftDown { from: 1, to: 5 });
    assert_eq!(plan_track_move(Some(1), 4), TrackMovePlan::ShiftUp { from: 1, to: 4 });

    // track at index 4 holds position 0; move it to position 3
    let mut positions = vec![3, 1, 4, 2, 0, 5];
    apply_move(&mut positions, 4, 3);
    assert_eq!(positions, vec![2, 0, 4, 1, 3, 5]);
    // and back up to the top
    apply_move(&mut positions, 4, 0);
    assert_eq!(positions, vec![3, 1, 4, 2, 0, 5]);
    let mut sorted = positions.clone();
    sorted.sort();
    assert_eq!(sorted, vec![0, 1, 2, 3, 4, 5]);
}

#[test]
fn fisher_yates_follows_the_draws() {
    assert_eq!(shuffle_with_draws(4, &vec![1, 0, 0]), vec![3, 2, 0, 1]);
    assert_eq!(shuffle_with_draws(4, &vec![3, 2, 1]), vec![0, 1, 2, 3]);
    assert_eq!(shuffle_with_draws(1, &vec![]), vec![0]);
    assert_eq!(shuffle_with_draws(0, &vec![]), Vec::<usize>::new());
    assert!(is_permutation(&random_permutation(9), 9));
}

#[test]
fn clear_keeps_the_playing_track_and_the_history() {
    let mut q = QueueManager::new();
    for id in 1..=4 {
        q.add_track(track(id));
    }
    q.play_index(0);
    q.next();
    q.next(); // history 1, 2; current 3
    q.set_stop_after(4);
    q.clear(true);
    let (tracks, current) = q.get_all_tracks();
    assert_eq!(tracks.len(), 1);
    assert_eq!(tracks[0].id, 3);
    assert_eq!(current, Some(0));
    assert_eq!(q.current_track().unwrap().id, 3);
    assert_eq!(q.get_stop_after(), None);
    let state = q.get_state();
    assert!(state.upcoming.is_empty());
    assert_eq!(state.history.iter().map(|t| t.id).collect::<Vec<_>>(), vec![2, 1]);

    // a later play goes on top of the cleared-out history
    q.add_track(track(9));
    q.next();
    let state = q.get_state();
    assert_eq!(state.history.iter().map(|t| t.id).collect::<Vec<_>>(), vec![3, 2, 1]);

    // replacing the queue turns records of tracks still queued back into entries
    q.set_queue(vec![track(1), track(5), track(3)], Some(1));
    let state = q.get_state();
    assert_eq!(state.history.iter().map(|t| t.id).collect::<Vec<_>>(), vec![3, 1]);

    q.clear(false);
    assert!(q.get_all_tracks().0.is_empty());
    assert_eq!(q.get_all_tracks().1, None);
}
