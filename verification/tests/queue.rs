use qbz::playback::QueueTrack;
use qbz::queue::QueueManager;

fn create_test_track(id: u64) -> QueueTrack {
    QueueTrack {
        id,
        title: format!("Track {}", id),
        version: None,
        artist: "Artist".to_string(),
        album: "Album".to_string(),
        duration_secs: 180,
        artwork_url: None,
        hires: false,
        bit_depth: None,
        sample_rate_bits: None,
        is_local: false,
        album_id: None,
        artist_id: None,
        streamable: true,
        source: Some("test".to_string()),
        parental_warning: false,
        source_item_id_hint: None,
    }
}

#[test]
fn test_clear_without_current_track() {
    let mut queue = QueueManager::new();

    queue.add_track(create_test_track(123));
    queue.add_track(create_test_track(124));
    queue.add_track(create_test_track(125));

    queue.clear(true);

    let state = queue.get_state();
    assert!(state.current_track.is_none());
    assert!(state.upcoming.is_empty());
    assert_eq!(state.total_tracks, 0);
}

#[test]
fn test_clear_keeps_current_track() {
    let mut queue = QueueManager::new();

    queue.add_track(create_test_track(123));
    queue.add_track(create_test_track(124));
    queue.add_track(create_test_track(125));
    queue.play_index(0);

    queue.clear(true);

    let state = queue.get_state();
    assert!(state.current_track.is_some());
    assert_eq!(state.current_track.unwrap().id, 123);
    assert!(state.upcoming.is_empty());
    assert_eq!(state.total_tracks, 1);
}

#[test]
fn test_clear_wipes_current_track_when_not_kept() {
    let mut queue = QueueManager::new();

    queue.add_track(create_test_track(123));
    queue.add_track(create_test_track(124));
    queue.play_index(0);

    // keep_current: false — user pressed Clear Queue while nothing was
    // actively playing, so the stale "now playing" slot should go too.
    queue.clear(false);

    let state = queue.get_state();
    assert!(state.current_track.is_none());
    assert!(state.upcoming.is_empty());
    assert_eq!(state.total_tracks, 0);
}

#[test]
fn test_clear_preserves_history() {
    let mut queue = QueueManager::new();

    queue.add_track(create_test_track(123));
    queue.add_track(create_test_track(124));
    queue.add_track(create_test_track(125));
    queue.play_index(0);
    queue.next(); // push 123 into history, current becomes 124

    let before = queue.get_state();
    assert_eq!(before.history.len(), 1);
    assert_eq!(before.history[0].id, 123);

    queue.clear(true);

    let after = queue.get_state();
    assert_eq!(after.history.len(), 1);
    assert_eq!(after.history[0].id, 123);
}

#[test]
fn test_move_track_down_without_current_track() {
    let mut queue = QueueManager::new();

    for i in 1..=5 {
        queue.add_track(create_test_track(i));
    }

    let result = queue.move_track(0, 3);

    assert!(result, "move_track should succeed");
    assert_eq!(
        queue
            .get_state()
            .upcoming
            .iter()
            .map(|track| track.id)
            .collect::<Vec<u64>>(),
        vec![2, 3, 1, 4, 5]
    );
}

#[test]
fn test_move_track_down_with_current_track() {
    let mut queue = QueueManager::new();

    for i in 1..=5 {
        queue.add_track(create_test_track(i));
    }
    queue.play_index(0);

    let result = queue.move_track(0, 3);

    assert!(result, "move_track should succeed");
    assert_eq!(
        queue
            .get_state()
            .upcoming
            .iter()
            .map(|track| track.id)
            .collect::<Vec<u64>>(),
        vec![3, 4, 2, 5]
    );
}

#[test]
fn test_move_track_up_without_current_track() {
    let mut queue = QueueManager::new();

    for i in 1..=5 {
        queue.add_track(create_test_track(i));
    }

    let result = queue.move_track(3, 0);

    assert!(result, "move_track should succeed");
    assert_eq!(
        queue
            .get_state()
            .upcoming
            .iter()
            .map(|track| track.id)
            .collect::<Vec<u64>>(),
        vec![4, 1, 2, 3, 5]
    );
}

#[test]
fn test_move_track_up_with_current_track() {
    let mut queue = QueueManager::new();

    for i in 1..=5 {
        queue.add_track(create_test_track(i));
    }
    queue.play_index(0);

    let result = queue.move_track(3, 0);

    assert!(result, "move_track should succeed");
    assert_eq!(
        queue
            .get_state()
            .upcoming
            .iter()
            .map(|track| track.id)
            .collect::<Vec<u64>>(),
        vec![5, 2, 3, 4]
    );
}

#[test]
fn test_move_track_with_shuffle_reorders_shuffle_timeline() {
    let mut queue = QueueManager::new();
    for i in 1..=8 {
        queue.add_track(create_test_track(i));
    }

    queue.play_index(0);
    queue.set_shuffle(true);

    let before_shuffle = queue.shuffle_order();

    // With current_index=0 and shuffle_position=0:
    // upcoming move 2 -> 0 maps to shuffle positions 3 -> 1.
    assert!(queue.move_track(2, 0));

    let after_shuffle = queue.shuffle_order();

    let mut expected = before_shuffle.clone();
    let moved = expected.remove(3);
    expected.insert(1, moved);

    assert_eq!(after_shuffle, expected);
    assert_eq!(after_shuffle.len(), 8);
}

#[test]
fn test_remove_track_with_shuffle_preserves_shuffle_order() {
    let mut queue = QueueManager::new();
    for i in 1..=8 {
        queue.add_track(create_test_track(i));
    }

    queue.play_index(0);
    queue.set_shuffle(true);

    let before_shuffle = queue.shuffle_order();

    assert!(queue.remove_track(2).is_some());

    let after_shuffle = queue.shuffle_order();

    let expected: Vec<usize> = before_shuffle
        .into_iter()
        .filter(|&idx| idx != 2)
        .map(|idx| if idx > 2 { idx - 1 } else { idx })
        .collect();

    assert_eq!(after_shuffle, expected);
    assert_eq!(after_shuffle.len(), 7);
}

#[test]
fn test_enabling_shuffle_keeps_all_remaining_tracks_upcoming() {
    let mut queue = QueueManager::new();
    for i in 1..=11 {
        queue.add_track(create_test_track(i));
    }

    queue.play_index(0);
    queue.set_shuffle(true);

    let state = queue.get_state();
    assert_eq!(state.total_tracks, 11);
    assert_eq!(state.upcoming.len(), 10);
}

#[test]
fn test_play_upcoming_at_without_shuffle_uses_linear_offset() {
    let mut queue = QueueManager::new();
    for i in 1..=5 {
        queue.add_track(create_test_track(i));
    }
    queue.play_index(1); // current = track id 2

    // upcoming list is [3, 4, 5]; clicking position 1 must play id 4
    let track = queue.play_upcoming_at(1).expect("track");
    assert_eq!(track.id, 4);
}

#[test]
fn test_play_upcoming_at_with_shuffle_follows_shuffle_order() {
    let mut queue = QueueManager::new();
    for i in 1..=5 {
        queue.add_track(create_test_track(i));
    }

    // Authoritative shuffle: playing head is shuffle[0]=2 (id 3),
    // upcoming order becomes [5, 2, 4, 1] (track ids).
    queue.set_queue_with_order(
        (1..=5).map(create_test_track).collect(),
        Some(2),
        true,
        Some(vec![2, 4, 1, 3, 0]),
    );

    let state = queue.get_state();
    assert_eq!(
        state
            .upcoming
            .iter()
            .map(|t| t.id)
            .collect::<Vec<_>>(),
        vec![5, 2, 4, 1]
    );

    // Clicking upcoming position 2 must play track id 4, not id 5
    // (which would be the "current_index + 2 + 1" = 5 broken path).
    let track = queue.play_upcoming_at(2).expect("track");
    assert_eq!(track.id, 4);
}

#[test]
fn test_set_shuffle_with_order_uses_authoritative_order() {
    let mut queue = QueueManager::new();
    for i in 1..=5 {
        queue.add_track(create_test_track(i));
    }

    queue.play_index(2);
    queue.set_shuffle_with_order(true, Some(vec![2, 4, 1, 3, 0]));

    let state = queue.get_state();
    assert!(state.shuffle);
    assert_eq!(
        state
            .upcoming
            .iter()
            .map(|track| track.id)
            .collect::<Vec<_>>(),
        vec![5, 2, 4, 1]
    );
}

#[test]
fn test_set_shuffle_with_order_preserves_current_order_when_invalid() {
    let mut queue = QueueManager::new();
    for i in 1..=4 {
        queue.add_track(create_test_track(i));
    }

    queue.play_index(1);
    queue.set_shuffle_with_order(true, Some(vec![1, 1, 2, 3]));

    let state = queue.get_state();
    assert!(state.shuffle);
    assert_eq!(
        state
            .upcoming
            .iter()
            .map(|track| track.id)
            .collect::<Vec<_>>(),
        vec![3, 4]
    );
}

#[test]
fn test_set_queue_with_order_applies_authoritative_shuffle_before_snapshot() {
    let mut queue = QueueManager::new();
    let tracks = (1..=5).map(create_test_track).collect::<Vec<_>>();

    queue.set_queue_with_order(tracks, Some(0), true, Some(vec![0, 3, 1, 4, 2]));

    let state = queue.get_state();
    assert!(state.shuffle);
    assert_eq!(
        state
            .upcoming
            .iter()
            .map(|track| track.id)
            .collect::<Vec<_>>(),
        vec![4, 2, 5, 3]
    );
}

#[test]
fn test_set_queue_with_order_preserves_queue_order_when_authoritative_order_missing() {
    let mut queue = QueueManager::new();
    let tracks = (1..=5).map(create_test_track).collect::<Vec<_>>();

    queue.set_queue_with_order(tracks, Some(1), true, None);

    let state = queue.get_state();
    assert!(state.shuffle);
    assert_eq!(
        state
            .upcoming
            .iter()
            .map(|track| track.id)
            .collect::<Vec<_>>(),
        vec![3, 4, 5]
    );
}

// --- Bug #316 history-preservation regression tests ---

/// Helper: build a queue with N tracks, play track 0, advance through
/// `advance_count` to populate history, returning the queue.
fn queue_with_played_history(track_count: u64, advance_count: usize) -> QueueManager {
    let mut queue = QueueManager::new();
    for i in 1..=track_count {
        queue.add_track(create_test_track(i));
    }
    queue.play_index(0);
    for _ in 0..advance_count {
        queue.next();
    }
    queue
}

#[test]
fn test_set_queue_with_order_preserves_history_on_pure_reorder() {
    // Played 3 tracks, current is on track 4 (id=4).
    let mut queue = queue_with_played_history(5, 3);
    let before = queue.get_state();
    assert_eq!(
        before.history.iter().map(|t| t.id).collect::<Vec<_>>(),
        vec![3, 2, 1]
    );

    // Same tracks, completely reordered. Current track (id=4) at new index 0.
    let reordered = vec![
        create_test_track(4),
        create_test_track(2),
        create_test_track(5),
        create_test_track(1),
        create_test_track(3),
    ];
    queue.set_queue_with_order(reordered, Some(0), false, None);

    let after = queue.get_state();
    // History rendered newest-first; ids must survive the reorder identically.
    assert_eq!(
        after.history.iter().map(|t| t.id).collect::<Vec<_>>(),
        vec![3, 2, 1]
    );
}

#[test]
fn test_set_queue_with_order_preserves_history_when_tracks_added() {
    // Played track 1, then 2; current is track 3.
    let mut queue = queue_with_played_history(3, 2);

    // Same tracks plus 2 new ones (4, 5). Current still on track 3 (new index 2).
    let expanded = vec![
        create_test_track(1),
        create_test_track(2),
        create_test_track(3),
        create_test_track(4),
        create_test_track(5),
    ];
    queue.set_queue_with_order(expanded, Some(2), false, None);

    let after = queue.get_state();
    assert_eq!(
        after.history.iter().map(|t| t.id).collect::<Vec<_>>(),
        vec![2, 1]
    );
}

#[test]
fn test_set_queue_with_order_drops_only_removed_tracks_from_history() {
    // Played tracks 1, 2, 3; current on track 4 (id=4).
    let mut queue = queue_with_played_history(5, 3);
    let before = queue.get_state();
    assert_eq!(
        before.history.iter().map(|t| t.id).collect::<Vec<_>>(),
        vec![3, 2, 1]
    );

    // Remove track id=2 from queue; tracks 1 and 3 survive in history.
    let trimmed = vec![
        create_test_track(1),
        create_test_track(3),
        create_test_track(4),
        create_test_track(5),
    ];
    queue.set_queue_with_order(trimmed, Some(2), false, None);

    let after = queue.get_state();
    assert_eq!(
        after.history.iter().map(|t| t.id).collect::<Vec<_>>(),
        vec![3, 1]
    );
}

#[test]
fn test_set_queue_with_order_clears_history_when_tracks_completely_different() {
    let mut queue = queue_with_played_history(5, 3);
    assert_eq!(queue.get_state().history.len(), 3);

    // No overlap with the previous queue; history must drop entirely.
    let fresh = vec![
        create_test_track(100),
        create_test_track(101),
        create_test_track(102),
    ];
    queue.set_queue_with_order(fresh, Some(0), false, None);

    let after = queue.get_state();
    assert!(after.history.is_empty());
}

#[test]
fn test_set_queue_preserves_history_on_pure_reorder() {
    // Mirror test for set_queue (non-with-order variant).
    let mut queue = queue_with_played_history(5, 3);
    let before = queue.get_state();
    assert_eq!(
        before.history.iter().map(|t| t.id).collect::<Vec<_>>(),
        vec![3, 2, 1]
    );

    let reordered = vec![
        create_test_track(5),
        create_test_track(4),
        create_test_track(3),
        create_test_track(2),
        create_test_track(1),
    ];
    queue.set_queue(reordered, Some(1)); // current track 4 now at idx 1

    let after = queue.get_state();
    assert_eq!(
        after.history.iter().map(|t| t.id).collect::<Vec<_>>(),
        vec![3, 2, 1]
    );
}

#[test]
fn test_set_queue_with_order_remaps_history_indices_after_reorder() {
    // Verify that after a reorder, the internal indices stored in history
    // actually point to the right new tracks (not just that ids match
    // through the get_state() projection accidentally).
    let mut queue = queue_with_played_history(4, 3);

    // Reverse order. Old tracks 1,2,3,4 -> new tracks 4,3,2,1.
    // Old history: indices [0, 1, 2] -> ids [1, 2, 3].
    // New mapping: id=1->idx 3, id=2->idx 2, id=3->idx 1.
    // Expected new history indices: [3, 2, 1] (front-to-back).
    let reversed = vec![
        create_test_track(4),
        create_test_track(3),
        create_test_track(2),
        create_test_track(1),
    ];
    queue.set_queue_with_order(reversed, Some(0), false, None);

    // Inspect internal state to verify the indices, not just rendered ids.
    assert_eq!(queue.history_indices(), vec![3, 2, 1]);
}

// ============ Stop-After Marker — Basic API ============

#[test]
fn test_set_stop_after_stores_marker() {
    let mut queue = QueueManager::new();
    queue.add_track(create_test_track(101));
    queue.add_track(create_test_track(102));
    queue.add_track(create_test_track(103));

    queue.set_stop_after(102);

    assert_eq!(queue.get_stop_after(), Some(102));
}

#[test]
fn test_set_stop_after_replaces_previous_marker() {
    let mut queue = QueueManager::new();
    queue.add_track(create_test_track(101));
    queue.add_track(create_test_track(102));

    queue.set_stop_after(101);
    queue.set_stop_after(102);

    assert_eq!(queue.get_stop_after(), Some(102));
}

#[test]
fn test_clear_stop_after_resets_marker() {
    let mut queue = QueueManager::new();
    queue.add_track(create_test_track(101));
    queue.set_stop_after(101);

    queue.clear_stop_after();

    assert_eq!(queue.get_stop_after(), None);
}

#[test]
fn test_set_stop_after_silently_ignores_unknown_id() {
    let mut queue = QueueManager::new();
    queue.add_track(create_test_track(101));
    queue.add_track(create_test_track(102));

    queue.set_stop_after(999); // not in queue

    assert_eq!(queue.get_stop_after(), None);
}

#[test]
fn test_set_stop_after_on_empty_queue_is_noop() {
    let mut queue = QueueManager::new();

    queue.set_stop_after(101);

    assert_eq!(queue.get_stop_after(), None);
}

// ============ Stop-After Marker — Consume (Firing Path) ============

#[test]
fn test_consume_stop_after_if_fires_on_match() {
    let mut queue = QueueManager::new();
    queue.add_track(create_test_track(101));
    queue.add_track(create_test_track(102));
    queue.set_stop_after(102);

    let fired = queue.consume_stop_after_if(102);

    assert!(fired, "consume should return true on match");
    assert_eq!(queue.get_stop_after(), None, "marker should be cleared after firing");
}

#[test]
fn test_consume_stop_after_if_does_not_fire_on_mismatch() {
    let mut queue = QueueManager::new();
    queue.add_track(create_test_track(101));
    queue.add_track(create_test_track(102));
    queue.set_stop_after(102);

    let fired = queue.consume_stop_after_if(101);

    assert!(!fired, "consume should return false on mismatch");
    assert_eq!(queue.get_stop_after(), Some(102), "marker should remain on mismatch");
}

#[test]
fn test_consume_stop_after_if_with_no_marker_returns_false() {
    let mut queue = QueueManager::new();
    queue.add_track(create_test_track(101));

    let fired = queue.consume_stop_after_if(101);

    assert!(!fired);
}

// ============ Stop-After Marker — Invalidation on Queue Mutations ============

#[test]
fn test_set_queue_invalidates_marker() {
    let mut queue = QueueManager::new();
    queue.add_track(create_test_track(101));
    queue.add_track(create_test_track(102));
    queue.set_stop_after(102);

    queue.set_queue(vec![create_test_track(201), create_test_track(202)], None);

    assert_eq!(queue.get_stop_after(), None);
}

#[test]
fn test_clear_invalidates_marker() {
    let mut queue = QueueManager::new();
    queue.add_track(create_test_track(101));
    queue.add_track(create_test_track(102));
    queue.set_stop_after(102);

    queue.clear(true);

    assert_eq!(queue.get_stop_after(), None);
}

#[test]
fn test_remove_track_invalidates_marker_when_marked_track_removed() {
    let mut queue = QueueManager::new();
    queue.add_track(create_test_track(101));
    queue.add_track(create_test_track(102));
    queue.add_track(create_test_track(103));
    queue.set_stop_after(102);

    queue.remove_track(1); // removes track 102

    assert_eq!(queue.get_stop_after(), None);
}

#[test]
fn test_remove_track_keeps_marker_when_other_track_removed() {
    let mut queue = QueueManager::new();
    queue.add_track(create_test_track(101));
    queue.add_track(create_test_track(102));
    queue.add_track(create_test_track(103));
    queue.set_stop_after(102);

    queue.remove_track(0); // removes track 101

    assert_eq!(queue.get_stop_after(), Some(102));
}

#[test]
fn test_move_track_does_not_invalidate_marker() {
    let mut queue = QueueManager::new();
    queue.add_track(create_test_track(101));
    queue.add_track(create_test_track(102));
    queue.add_track(create_test_track(103));
    queue.set_stop_after(102);

    queue.move_track(1, 0); // 102 moves to position 0

    assert_eq!(queue.get_stop_after(), Some(102));
}

#[test]
fn test_remove_after_returns_count() {
    let mut queue = QueueManager::new();
    for id in [101, 102, 103, 104, 105] {
        queue.add_track(create_test_track(id));
    }

    let removed = queue.remove_after(1);

    assert_eq!(removed, 3, "should remove indices 2, 3, 4");
    let state = queue.get_state();
    assert_eq!(state.total_tracks, 2);
}

#[test]
fn test_remove_after_on_last_index_is_noop() {
    let mut queue = QueueManager::new();
    for id in [101, 102, 103] {
        queue.add_track(create_test_track(id));
    }

    let removed = queue.remove_after(2);

    assert_eq!(removed, 0);
    assert_eq!(queue.get_state().total_tracks, 3);
}

#[test]
fn test_remove_after_with_index_out_of_bounds_is_noop() {
    let mut queue = QueueManager::new();
    queue.add_track(create_test_track(101));
    queue.add_track(create_test_track(102));

    let removed = queue.remove_after(99);

    assert_eq!(removed, 0);
    assert_eq!(queue.get_state().total_tracks, 2);
}

#[test]
fn test_remove_after_invalidates_marker_when_in_removed_range() {
    let mut queue = QueueManager::new();
    for id in [101, 102, 103, 104] {
        queue.add_track(create_test_track(id));
    }
    queue.set_stop_after(103);

    queue.remove_after(1); // removes 103, 104

    assert_eq!(queue.get_stop_after(), None);
}

#[test]
fn test_remove_after_keeps_marker_when_before_range() {
    let mut queue = QueueManager::new();
    for id in [101, 102, 103, 104] {
        queue.add_track(create_test_track(id));
    }
    queue.set_stop_after(101);

    queue.remove_after(2); // removes 104 only (index 3)

    assert_eq!(queue.get_stop_after(), Some(101));
}

#[test]
fn test_remove_after_keeps_marker_when_at_pivot_index() {
    let mut queue = QueueManager::new();
    for id in [101, 102, 103, 104] {
        queue.add_track(create_test_track(id));
    }
    queue.set_stop_after(102);

    queue.remove_after(1); // removes indices 2, 3 — track 102 (at index 1) stays

    assert_eq!(queue.get_stop_after(), Some(102));
}

#[test]
fn test_get_state_includes_stop_after() {
    let mut queue = QueueManager::new();
    queue.add_track(create_test_track(101));
    queue.set_stop_after(101);

    let state = queue.get_state();

    assert_eq!(state.stop_after_track_id, Some(101));
}

#[test]
fn test_get_state_returns_none_when_no_marker() {
    let mut queue = QueueManager::new();
    queue.add_track(create_test_track(101));

    let state = queue.get_state();

    assert_eq!(state.stop_after_track_id, None);
}

