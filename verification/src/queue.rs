//! Playback queue: manipulation (add, remove, reorder, clear), the current
//! track, shuffle mode, repeat modes, play history and the "stop after"
//! marker.

use vstd::prelude::*;
use crate::playback::{QueueState, QueueTrack, RepeatMode};
use crate::shuffle::{identity_vec, random_permutation, fisher_yates, valid_draws, swapped};

verus! {

/// Most play-history entries the queue keeps.
pub const HISTORY_LIMIT: usize = 50;

/// Most upcoming tracks a snapshot lists.
pub const UPCOMING_LIMIT: usize = 20;

/// Most history tracks a snapshot lists.
pub const HISTORY_SNAPSHOT_LIMIT: usize = 10;

/// The abstract state of a queue.
#[verifier::ext_equal]
pub struct QueueView {
    /// All tracks, in queue order.
    pub tracks: Seq<QueueTrack>,
    /// Index of the current track in `tracks`.
    pub current_index: Option<usize>,
    pub shuffle: bool,
    /// Play order of track indices while shuffle is on.
    pub shuffle_order: Seq<usize>,
    /// Position of the current track in `shuffle_order`.
    pub shuffle_position: usize,
    pub repeat: RepeatMode,
    /// Indices of played tracks, oldest first.
    pub history: Seq<usize>,
    /// Track id after which playback stops.
    pub stop_after_track_id: Option<u64>,
    /// Played tracks that a clear took out of the queue, oldest first; they
    /// come before the entries of `history`.
    pub past: Seq<QueueTrack>,
}

/// First position of `x` in `s`.
pub open spec fn first_index_of(s: Seq<usize>, x: usize) -> Option<int>
    decreases s.len(),
{
    if s.len() == 0 {
        None
    } else {
        match first_index_of(s.drop_last(), x) {
            Some(i) => Some(i),
            None => if s.last() == x {
                Some(s.len() - 1)
            } else {
                None
            },
        }
    }
}

/// `first_index_of` finds the first occurrence, and only fails when there is none.
pub proof fn lemma_first_index_of(s: Seq<usize>, x: usize)
    ensures
        match first_index_of(s, x) {
            Some(i) => 0 <= i < s.len() && s[i] == x && forall|j: int| 0 <= j < i ==> s[j] != x,
            None => forall|j: int| 0 <= j < s.len() ==> s[j] != x,
        },
    decreases s.len(),
{
    if s.len() > 0 {
        lemma_first_index_of(s.drop_last(), x);
        assert(forall|j: int| 0 <= j < s.len() - 1 ==> s.drop_last()[j] == s[j]);
    }
}

/// The shuffle position that keeps pointing at `current`: its first position
/// in `order`, or 0 when there is no current track or it is not in `order`.
pub open spec fn position_of_current(order: Seq<usize>, current: Option<usize>) -> usize {
    match current {
        Some(c) => match first_index_of(order, c) {
            Some(p) => p as usize,
            None => 0,
        },
        None => 0,
    }
}

/// `order` lists each index of `0..n` exactly once.
pub open spec fn is_permutation(order: Seq<usize>, n: int) -> bool {
    &&& order.len() == n
    &&& forall|i: int| 0 <= i < order.len() ==> order[i] < n
    &&& forall|i: int, j: int| 0 <= i < j < order.len() ==> order[i] != order[j]
}

/// `order` is what a Fisher-Yates shuffle of `0..n` gives for some valid
/// draws.
pub open spec fn is_fisher_yates_order(order: Seq<usize>, n: int) -> bool {
    exists|draws: Seq<usize>| valid_draws(draws, n) && order == #[trigger] fisher_yates(identity_order(n), draws)
}

/// `s` with the first entry `x` exchanged with its front entry (unchanged
/// when `x` is absent).
pub open spec fn brought_to_front(s: Seq<usize>, x: usize) -> Seq<usize> {
    match first_index_of(s, x) {
        Some(p) => swapped(s, 0, p),
        None => s,
    }
}

/// In shuffle mode every entry of the shuffle order names a queued track,
/// and no track twice. `new` gives it, and the queue's operations keep it
/// (adding a track to play next keeps it while the current index is in
/// range).
pub open spec fn shuffle_indices_valid(q: QueueView) -> bool {
    q.shuffle ==> valid_order(q.shuffle_order, q.tracks.len() as int)
}

/// Every entry of `order` is below `n`, and none occurs twice.
pub open spec fn valid_order(order: Seq<usize>, n: int) -> bool {
    &&& forall|i: int| 0 <= i < order.len() ==> #[trigger] order[i] < n
    &&& forall|i: int, j: int| 0 <= i < j < order.len() ==> order[i] != order[j]
}

/// The indices `0..n` in order.
pub open spec fn identity_order(n: int) -> Seq<usize> {
    Seq::new(n as nat, |i: int| i as usize)
}

/// The optional element of `s` at index `i`.
pub open spec fn seq_get<T>(s: Seq<T>, i: int) -> Option<T> {
    if 0 <= i < s.len() {
        Some(s[i])
    } else {
        None
    }
}

/// The track at the optional index `idx`, if the index is in range.
pub open spec fn track_at(tracks: Seq<QueueTrack>, idx: Option<usize>) -> Option<QueueTrack> {
    match idx {
        Some(i) => seq_get(tracks, i as int),
        None => None,
    }
}

/// History after recording `current` as played: appended, then trimmed from
/// the front to `HISTORY_LIMIT` entries.
pub open spec fn history_after_play(history: Seq<usize>, current: Option<usize>) -> Seq<usize> {
    match current {
        Some(c) => {
            let h = history.push(c);
            if h.len() > HISTORY_LIMIT {
                h.subrange(h.len() - HISTORY_LIMIT, h.len() as int)
            } else {
                h
            }
        },
        None => history,
    }
}

/// Shuffle order after inserting a track at `ins`: indices at or after
/// `ins` move up by one.
pub open spec fn shift_up_from(order: Seq<usize>, ins: usize) -> Seq<usize> {
    order.map_values(|x: usize| if x >= ins { (x + 1) as usize } else { x })
}

/// Last index of `tracks` holding a track with id `id`.
pub open spec fn last_index_with_id(tracks: Seq<QueueTrack>, id: u64) -> Option<int>
    decreases tracks.len(),
{
    if tracks.len() == 0 {
        None
    } else if tracks.last().id == id {
        Some(tracks.len() - 1)
    } else {
        last_index_with_id(tracks.drop_last(), id)
    }
}

/// History re-pointed from `old_tracks` to `new_tracks` by track id: each
/// entry that names a track of `old_tracks` becomes the last index of a track
/// with the same id in `new_tracks`; entries with no such track are dropped.
pub open spec fn remap_history(history: Seq<usize>, old_tracks: Seq<QueueTrack>, new_tracks: Seq<QueueTrack>) -> Seq<usize>
    decreases history.len(),
{
    if history.len() == 0 {
        Seq::empty()
    } else {
        let prev = remap_history(history.drop_last(), old_tracks, new_tracks);
        let idx = history.last();
        if idx < old_tracks.len() {
            match last_index_with_id(new_tracks, old_tracks[idx as int].id) {
                Some(j) => prev.push(j as usize),
                None => prev,
            }
        } else {
            prev
        }
    }
}

/// Shuffle position used when the queue order stands in for the shuffle
/// order: the current index, clamped to the last position.
pub open spec fn identity_position(len: int, current: Option<usize>) -> usize {
    match current {
        Some(c) => if c <= len - 1 { c } else if len >= 1 { (len - 1) as usize } else { 0 },
        None => 0,
    }
}

/// The shuffle order and position taken on when shuffle is (re)set from an
/// optional authoritative order: the order itself when it is a permutation of
/// the track indices, the queue order otherwise.
pub open spec fn authoritative_order(order: Option<Seq<usize>>, len: int) -> Seq<usize> {
    match order {
        Some(o) => if is_permutation(o, len) { o } else { identity_order(len) },
        None => identity_order(len),
    }
}

pub open spec fn authoritative_position(order: Option<Seq<usize>>, len: int, current: Option<usize>) -> usize {
    match order {
        Some(o) => if is_permutation(o, len) {
            position_of_current(o, current)
        } else {
            identity_position(len, current)
        },
        None => identity_position(len, current),
    }
}

/// The view of an optional vector.
pub open spec fn opt_view(v: Option<Vec<usize>>) -> Option<Seq<usize>> {
    match v {
        Some(x) => Some(x@),
        None => None,
    }
}

/// `s` without the entries equal to `idx`, with the entries above `idx`
/// moved down by one (indices after a removal at `idx`).
pub open spec fn drop_and_shift_down(s: Seq<usize>, idx: usize) -> Seq<usize>
    decreases s.len(),
{
    if s.len() == 0 {
        Seq::empty()
    } else {
        let prev = drop_and_shift_down(s.drop_last(), idx);
        let x = s.last();
        if x == idx {
            prev
        } else if x > idx {
            prev.push((x - 1) as usize)
        } else {
            prev.push(x)
        }
    }
}

/// Entries above `idx` moved down by one.
pub open spec fn shift_down_above(s: Seq<usize>, idx: usize) -> Seq<usize> {
    s.map_values(|x: usize| if x > idx { (x - 1) as usize } else { x })
}

/// The entries of `s` below `cutoff`, in order.
pub open spec fn keep_below(s: Seq<usize>, cutoff: usize) -> Seq<usize>
    decreases s.len(),
{
    if s.len() == 0 {
        Seq::empty()
    } else {
        let prev = keep_below(s.drop_last(), cutoff);
        if s.last() < cutoff {
            prev.push(s.last())
        } else {
            prev
        }
    }
}

/// Current index after removing the track at `idx`, `new_len` tracks remaining.
pub open spec fn current_after_removal(cur: Option<usize>, idx: usize, new_len: int) -> Option<usize> {
    match cur {
        Some(c) => if idx < c {
            Some((c - 1) as usize)
        } else if idx == c && c >= new_len {
            if new_len == 0 {
                None
            } else {
                Some((new_len - 1) as usize)
            }
        } else {
            Some(c)
        },
        None => None,
    }
}

/// Shuffle order after removing the track at `idx`: its first entry goes,
/// and entries above `idx` move down by one.
pub open spec fn order_after_removal(order: Seq<usize>, idx: usize) -> Seq<usize> {
    match first_index_of(order, idx) {
        Some(p) => shift_down_above(order.remove(p), idx),
        None => shift_down_above(order, idx),
    }
}

/// The queue after removing the track at `idx` (which is in range): the
/// current index, history and shuffle order are re-aligned, and the marker is
/// cleared when it named the removed track.
pub open spec fn removed_at(q: QueueView, idx: usize) -> QueueView {
    let tracks = q.tracks.remove(idx as int);
    let current = current_after_removal(q.current_index, idx, tracks.len() as int);
    let order = if q.shuffle { order_after_removal(q.shuffle_order, idx) } else { q.shuffle_order };
    QueueView {
        tracks: tracks,
        current_index: current,
        shuffle_order: order,
        shuffle_position: if q.shuffle { position_of_current(order, current) } else { q.shuffle_position },
        history: drop_and_shift_down(q.history, idx),
        stop_after_track_id: if q.stop_after_track_id == Some(q.tracks[idx as int].id) {
            None
        } else {
            q.stop_after_track_id
        },
        ..q
    }
}

/// Track index that position `upcoming_index` of the upcoming list names.
pub open spec fn upcoming_target(q: QueueView, upcoming_index: usize) -> Option<usize> {
    if q.shuffle {
        let sp = q.shuffle_position + 1 + upcoming_index;
        if sp >= q.shuffle_order.len() {
            None
        } else {
            Some(q.shuffle_order[sp])
        }
    } else {
        match q.current_index {
            Some(c) => Some((c + 1 + upcoming_index) as usize),
            None => Some(upcoming_index),
        }
    }
}

/// Where index `idx` ends up when the entry at `from` is removed and
/// re-inserted at `to`.
pub open spec fn remap_index_after_move(idx: usize, from: usize, to: usize) -> usize {
    if idx == from {
        to
    } else if from < to {
        if idx > from && idx <= to { (idx - 1) as usize } else { idx }
    } else {
        if idx >= to && idx < from { (idx + 1) as usize } else { idx }
    }
}

/// The optional element of `s` as a sequence of zero or one elements.
pub open spec fn opt_seq<T>(o: Option<T>) -> Seq<T> {
    match o {
        Some(x) => seq![x],
        None => Seq::empty(),
    }
}

/// The queue after jumping to the track at `index` (in range): the current
/// track goes to the history and, in shuffle mode, the position follows.
pub open spec fn played(q: QueueView, index: usize) -> QueueView {
    QueueView {
        history: history_after_play(q.history, q.current_index),
        current_index: Some(index),
        shuffle_position: if q.shuffle {
            match first_index_of(q.shuffle_order, index) {
                Some(p) => p as usize,
                None => q.shuffle_position,
            }
        } else {
            q.shuffle_position
        },
        ..q
    }
}

/// Track index that position `upcoming_index` of the upcoming list names
/// when jumping to it.
pub open spec fn jump_target(q: QueueView, upcoming_index: usize) -> Option<usize> {
    match q.current_index {
        Some(c) => if q.shuffle {
            seq_get(q.shuffle_order, q.shuffle_position + 1 + upcoming_index)
        } else {
            Some((c + 1 + upcoming_index) as usize)
        },
        None => Some(upcoming_index),
    }
}

/// The track index that follows the current one in play order, without
/// repeat-one (which keeps the current track).
pub open spec fn next_index(q: QueueView) -> Option<usize> {
    if q.shuffle {
        let p = q.shuffle_position + 1;
        if p < q.shuffle_order.len() {
            Some(q.shuffle_order[p])
        } else if q.repeat == RepeatMode::All {
            seq_get(q.shuffle_order, 0)
        } else {
            None
        }
    } else {
        let c = match q.current_index {
            Some(c) => c as int,
            None => 0,
        };
        if c + 1 < q.tracks.len() {
            Some((c + 1) as usize)
        } else if q.repeat == RepeatMode::All {
            Some(0)
        } else {
            None
        }
    }
}

/// The `i`-th slot of the upcoming list: zero or one track.
pub open spec fn peek_entry(q: QueueView, i: int) -> Seq<QueueTrack> {
    if q.shuffle {
        let pos = q.shuffle_position + 1 + i;
        if pos < q.shuffle_order.len() {
            opt_seq(seq_get(q.tracks, q.shuffle_order[pos] as int))
        } else if q.repeat == RepeatMode::All {
            opt_seq(seq_get(q.tracks, q.shuffle_order[pos % (q.shuffle_order.len() as int)] as int))
        } else {
            Seq::empty()
        }
    } else {
        let start = match q.current_index {
            Some(c) => c + 1,
            None => 0,
        };
        let idx = start + i;
        if idx < q.tracks.len() {
            seq![q.tracks[idx]]
        } else if q.repeat == RepeatMode::All {
            seq![q.tracks[idx % (q.tracks.len() as int)]]
        } else {
            Seq::empty()
        }
    }
}

/// The first `count` slots of the upcoming list, concatenated.
pub open spec fn peek_slots(q: QueueView, count: nat) -> Seq<QueueTrack>
    decreases count,
{
    if count == 0 {
        Seq::empty()
    } else {
        peek_slots(q, (count - 1) as nat) + peek_entry(q, count - 1)
    }
}

/// The tracks that `indices` name, skipping indices out of range.
pub open spec fn tracks_of(tracks: Seq<QueueTrack>, indices: Seq<usize>) -> Seq<QueueTrack>
    decreases indices.len(),
{
    if indices.len() == 0 {
        Seq::empty()
    } else {
        tracks_of(tracks, indices.drop_last()) + opt_seq(seq_get(tracks, indices.last() as int))
    }
}

/// At most `count` elements of `s` starting at `start`.
pub open spec fn window<T>(s: Seq<T>, start: int, count: int) -> Seq<T> {
    let lo = if start < s.len() { start } else { s.len() as int };
    let hi = if lo + count < s.len() { lo + count } else { s.len() as int };
    s.subrange(lo, hi)
}

/// The upcoming list of a snapshot.
pub open spec fn snapshot_upcoming(q: QueueView) -> Seq<QueueTrack> {
    match q.current_index {
        Some(c) => if q.shuffle {
            tracks_of(q.tracks, window(q.shuffle_order, q.shuffle_position + 1, UPCOMING_LIMIT as int))
        } else {
            window(q.tracks, c + 1, UPCOMING_LIMIT as int)
        },
        None => window(q.tracks, 0, UPCOMING_LIMIT as int),
    }
}

/// The history list of a snapshot: most recent first.
pub open spec fn snapshot_history(q: QueueView) -> Seq<QueueTrack> {
    let recent = window(q.history.reverse(), 0, HISTORY_SNAPSHOT_LIMIT as int);
    tracks_of(q.tracks, recent) + window(q.past.reverse(), 0, HISTORY_SNAPSHOT_LIMIT - recent.len())
}

/// Whether a queued track has id `id`.
pub open spec fn has_track_id(tracks: Seq<QueueTrack>, id: u64) -> bool {
    exists|i: int| 0 <= i < tracks.len() && tracks[i].id == id
}

/// The queue after marking `id` to stop after: the marker is set when a
/// queued track has that id, unchanged otherwise.
pub open spec fn with_stop_after(q: QueueView, id: u64) -> QueueView {
    QueueView {
        stop_after_track_id: if has_track_id(q.tracks, id) { Some(id) } else { q.stop_after_track_id },
        ..q
    }
}

/// Whether finishing the track `id` fires the marker.
pub open spec fn stop_fires(q: QueueView, id: u64) -> bool {
    q.stop_after_track_id == Some(id)
}

/// The queue after finishing the track `id`: the marker is cleared when it
/// fires.
pub open spec fn after_finished(q: QueueView, id: u64) -> QueueView {
    QueueView { stop_after_track_id: if stop_fires(q, id) { None } else { q.stop_after_track_id }, ..q }
}

/// The queue after appending `t`.
pub open spec fn appended(q: QueueView, t: QueueTrack) -> QueueView {
    QueueView {
        tracks: q.tracks.push(t),
        shuffle_order: if q.shuffle { q.shuffle_order.push(q.tracks.len() as usize) } else { q.shuffle_order },
        ..q
    }
}

/// The queue after appending `ts`.
pub open spec fn appended_all(q: QueueView, ts: Seq<QueueTrack>) -> QueueView {
    QueueView {
        tracks: q.tracks + ts,
        shuffle_order: if q.shuffle {
            q.shuffle_order + Seq::new(ts.len(), |i: int| (q.tracks.len() + i) as usize)
        } else {
            q.shuffle_order
        },
        ..q
    }
}

/// The queue after `clear(keep_current)`: with `keep_current` and a current
/// index, the current track stays as the only one and becomes the current
/// track (the first track, when the index lies past the end); otherwise all
/// tracks go. The played tracks move from `history` to `past`, so the play
/// history still shows them; the shuffle order and marker are cleared.
pub open spec fn cleared(q: QueueView, keep_current: bool) -> QueueView {
    let keep = keep_current && q.current_index is Some;
    QueueView {
        tracks: if keep {
            let c = q.current_index.unwrap() as int;
            if c < q.tracks.len() {
                q.tracks.subrange(c, c + 1)
            } else if q.tracks.len() > 1 {
                q.tracks.subrange(0, 1)
            } else {
                q.tracks
            }
        } else {
            Seq::empty()
        },
        current_index: if keep { Some(0) } else { None },
        shuffle_order: Seq::empty(),
        shuffle_position: 0,
        stop_after_track_id: None,
        history: Seq::empty(),
        past: last_n(q.past + tracks_of(q.tracks, q.history), HISTORY_LIMIT as int),
        ..q
    }
}

/// The last `n` entries of `s` (all of them when there are fewer).
pub open spec fn last_n<T>(s: Seq<T>, n: int) -> Seq<T> {
    if s.len() > n { s.subrange(s.len() - n, s.len() as int) } else { s }
}

/// Records of played tracks re-pointed to `new_tracks` by track id: each
/// becomes the last index of a track with its id; those with none are
/// dropped.
pub open spec fn remap_records(past: Seq<QueueTrack>, new_tracks: Seq<QueueTrack>) -> Seq<usize>
    decreases past.len(),
{
    if past.len() == 0 {
        Seq::empty()
    } else {
        let prev = remap_records(past.drop_last(), new_tracks);
        match last_index_with_id(new_tracks, past.last().id) {
            Some(j) => prev.push(j as usize),
            None => prev,
        }
    }
}

/// The play history after the tracks are replaced by `new_tracks`: the
/// cleared-out records, then the history entries, re-pointed by track id,
/// kept to the last `HISTORY_LIMIT`.
pub open spec fn history_after_replace(q: QueueView, new_tracks: Seq<QueueTrack>) -> Seq<usize> {
    last_n(
        remap_records(q.past, new_tracks) + remap_history(q.history, q.tracks, new_tracks),
        HISTORY_LIMIT as int,
    )
}

/// The queue after adding `t` to play next: inserted right after the
/// current track (at the front when there is none); in shuffle mode it also
/// becomes the next entry of the shuffle order.
pub open spec fn added_next(o: QueueView, track: QueueTrack) -> QueueView {
    let ins: usize = match o.current_index {
        Some(c) => (c + 1) as usize,
        None => 0,
    };
    let shifted = shift_up_from(o.shuffle_order, ins);
    let next_pos: int = if o.current_index is Some {
        o.shuffle_position + 1
    } else {
        shifted.len() as int
    };
    QueueView {
        tracks: if ins >= o.tracks.len() {
            o.tracks.push(track)
        } else {
            o.tracks.insert(ins as int, track)
        },
        shuffle_order: if o.shuffle {
            if next_pos >= shifted.len() {
                shifted.push(ins)
            } else {
                shifted.insert(next_pos, ins)
            }
        } else {
            o.shuffle_order
        },
        ..o
    }
}

pub struct QueueManager {
    tracks: Vec<QueueTrack>,
    current_index: Option<usize>,
    shuffle: bool,
    shuffle_order: Vec<usize>,
    shuffle_position: usize,
    repeat: RepeatMode,
    history: Vec<usize>,
    stop_after_track_id: Option<u64>,
    past: Vec<QueueTrack>,
}

impl Default for QueueManager {
    fn default() -> (r: Self)
        ensures
            r@.tracks.len() == 0,
            r@.current_index is None,
            !r@.shuffle,
            r@.shuffle_order.len() == 0,
            r@.shuffle_position == 0,
            r@.repeat == RepeatMode::Off,
            r@.history.len() == 0,
            r@.stop_after_track_id is None,
            r@.past.len() == 0,
    {
        QueueManager::new()
    }
}

impl View for QueueManager {
    type V = QueueView;

    closed spec fn view(&self) -> QueueView {
        QueueView {
            tracks: self.tracks@,
            current_index: self.current_index,
            shuffle: self.shuffle,
            shuffle_order: self.shuffle_order@,
            shuffle_position: self.shuffle_position,
            repeat: self.repeat,
            history: self.history@,
            stop_after_track_id: self.stop_after_track_id,
            past: self.past@,
        }
    }
}

/// First position of `x` in `v`.
pub fn find_index(v: &Vec<usize>, x: usize) -> (r: Option<usize>)
    ensures
        match r {
            Some(p) => first_index_of(v@, x) == Some(p as int),
            None => first_index_of(v@, x) is None,
        },
{
    let mut i: usize = 0;
    while i < v.len()
        invariant
            0 <= i <= v.len(),
            first_index_of(v@.subrange(0, i as int), x) is None,
        decreases v.len() - i,
    {
        assert(v@.subrange(0, i + 1).drop_last() =~= v@.subrange(0, i as int));
        if v[i] == x {
            assert(first_index_of(v@.subrange(0, i + 1), x) == Some(i as int));
            proof { lemma_first_index_of_prefix(v@, x, i + 1); }
            return Some(i);
        }
        i += 1;
    }
    assert(v@.subrange(0, v.len() as int) =~= v@);
    None
}

/// A found first occurrence in a prefix is the first occurrence in the whole sequence.
pub proof fn lemma_first_index_of_prefix(s: Seq<usize>, x: usize, k: int)
    requires
        0 <= k <= s.len(),
        first_index_of(s.subrange(0, k), x) is Some,
    ensures
        first_index_of(s, x) == first_index_of(s.subrange(0, k), x),
    decreases s.len() - k,
{
    if k < s.len() {
        assert(s.subrange(0, k + 1).drop_last() =~= s.subrange(0, k));
        lemma_first_index_of_prefix(s, x, k + 1);
    } else {
        assert(s.subrange(0, k) =~= s);
    }
}

/// Append the indices `start..end` to `v`.
fn push_range(v: &mut Vec<usize>, start: usize, end: usize)
    requires
        start <= end,
    ensures
        final(v)@ == old(v)@ + Seq::new((end - start) as nat, |k: int| (start + k) as usize),
{
    let ghost v0 = v@;
    let mut i = start;
    while i < end
        invariant
            start <= i <= end,
            v@ == v0 + Seq::new((i - start) as nat, |k: int| (start + k) as usize),
        decreases end - i,
    {
        v.push(i);
        i += 1;
        assert(v@ =~= v0 + Seq::new((i - start) as nat, |k: int| (start + k) as usize));
    }
}

/// Move every index at or after `ins` up by one.
fn shift_up(v: &mut Vec<usize>, ins: usize)
    requires
        forall|i: int| 0 <= i < old(v)@.len() ==> old(v)@[i] < usize::MAX,
    ensures
        final(v)@ == shift_up_from(old(v)@, ins),
{
    let ghost v0 = v@;
    let n = v.len();
    let mut i: usize = 0;
    while i < n
        invariant
            0 <= i <= n,
            n == v@.len(),
            n == v0.len(),
            forall|k: int| 0 <= k < n ==> v0[k] < usize::MAX,
            forall|k: int| 0 <= k < i ==> v@[k] == (if v0[k] >= ins { (v0[k] + 1) as usize } else { v0[k] }),
            forall|k: int| i <= k < n ==> v@[k] == v0[k],
        decreases n - i,
    {
        let x = v[i];
        assert(x == v0[i as int]);
        if x >= ins {
            v.set(i, x + 1);
        }
        i += 1;
    }
    assert(v@ =~= shift_up_from(v0, ins));
}

/// Last index of `tracks` holding a track with id `id`.
fn find_last_id(tracks: &Vec<QueueTrack>, id: u64) -> (r: Option<usize>)
    ensures
        r == (match last_index_with_id(tracks@, id) {
            Some(j) => Some(j as usize),
            None => None,
        }),
{
    let mut i = tracks.len();
    assert(tracks@.subrange(0, i as int) =~= tracks@);
    while i > 0
        invariant
            i <= tracks@.len(),
            last_index_with_id(tracks@, id) == last_index_with_id(tracks@.subrange(0, i as int), id),
        decreases i,
    {
        assert(tracks@.subrange(0, i as int).drop_last() =~= tracks@.subrange(0, i - 1));
        if tracks[i - 1].id == id {
            return Some(i - 1);
        }
        i -= 1;
    }
    None
}

/// `history` re-pointed from `old_tracks` to `new_tracks` by track id.
/// A copy of `v`.
fn clone_tracks(v: &Vec<QueueTrack>) -> (r: Vec<QueueTrack>)
    ensures
        r@ == v@,
{
    let mut out: Vec<QueueTrack> = Vec::new();
    let mut i: usize = 0;
    while i < v.len()
        invariant
            0 <= i <= v@.len(),
            out@ == v@.subrange(0, i as int),
        decreases v@.len() - i,
    {
        out.push(v[i].clone());
        i += 1;
        assert(out@ =~= v@.subrange(0, i as int));
    }
    assert(v@.subrange(0, v@.len() as int) =~= v@);
    out
}

/// Append copies of the tracks of `b` to `a`.
fn append_tracks(a: &mut Vec<QueueTrack>, b: &Vec<QueueTrack>)
    ensures
        final(a)@ == old(a)@ + b@,
{
    let ghost a0 = a@;
    let mut i: usize = 0;
    while i < b.len()
        invariant
            0 <= i <= b@.len(),
            a@ == a0 + b@.subrange(0, i as int),
        decreases b@.len() - i,
    {
        a.push(b[i].clone());
        i += 1;
        assert(a@ =~= a0 + b@.subrange(0, i as int));
    }
    assert(b@.subrange(0, b@.len() as int) =~= b@);
}

/// The last `n` tracks of `v`.
fn last_tracks(v: &Vec<QueueTrack>, n: usize) -> (r: Vec<QueueTrack>)
    ensures
        r@ == last_n(v@, n as int),
{
    let start = if v.len() > n { v.len() - n } else { 0 };
    let mut out: Vec<QueueTrack> = Vec::new();
    let mut i: usize = start;
    while i < v.len()
        invariant
            start <= i <= v@.len(),
            start == (if v@.len() > n { v@.len() - n } else { 0 }),
            out@ == v@.subrange(start as int, i as int),
        decreases v@.len() - i,
    {
        out.push(v[i].clone());
        i += 1;
        assert(out@ =~= v@.subrange(start as int, i as int));
    }
    assert(v@.len() <= n ==> v@.subrange(0, v@.len() as int) =~= v@);
    out
}

/// The last `n` indices of `v`.
fn last_indices(v: &Vec<usize>, n: usize) -> (r: Vec<usize>)
    ensures
        r@ == last_n(v@, n as int),
{
    let start = if v.len() > n { v.len() - n } else { 0 };
    let mut out: Vec<usize> = Vec::new();
    let mut i: usize = start;
    while i < v.len()
        invariant
            start <= i <= v@.len(),
            start == (if v@.len() > n { v@.len() - n } else { 0 }),
            out@ == v@.subrange(start as int, i as int),
        decreases v@.len() - i,
    {
        out.push(v[i]);
        i += 1;
        assert(out@ =~= v@.subrange(start as int, i as int));
    }
    assert(v@.len() <= n ==> v@.subrange(0, v@.len() as int) =~= v@);
    out
}

/// The last `count` tracks of `v`, most recent first.
fn recent_tracks(v: &Vec<QueueTrack>, count: usize) -> (r: Vec<QueueTrack>)
    ensures
        r@ == window(v@.reverse(), 0, count as int),
{
    let mut out: Vec<QueueTrack> = Vec::new();
    let n = v.len();
    let mut i: usize = 0;
    while i < n && i < count
        invariant
            0 <= i <= n,
            n == v@.len(),
            i <= count,
            out@ == v@.reverse().subrange(0, i as int),
        decreases n - i,
    {
        out.push(v[n - 1 - i].clone());
        i += 1;
        assert(out@ =~= v@.reverse().subrange(0, i as int));
    }
    out
}

/// Records re-pointed to `new_tracks` by track id; see `remap_records`.
fn remap_records_exec(past: &Vec<QueueTrack>, new_tracks: &Vec<QueueTrack>) -> (r: Vec<usize>)
    ensures
        r@ == remap_records(past@, new_tracks@),
{
    let mut out: Vec<usize> = Vec::new();
    let mut i: usize = 0;
    while i < past.len()
        invariant
            0 <= i <= past@.len(),
            out@ == remap_records(past@.subrange(0, i as int), new_tracks@),
        decreases past@.len() - i,
    {
        assert(past@.subrange(0, i + 1).drop_last() =~= past@.subrange(0, i as int));
        match find_last_id(new_tracks, past[i].id) {
            Some(j) => out.push(j),
            None => {},
        }
        i += 1;
    }
    assert(past@.subrange(0, past@.len() as int) =~= past@);
    out
}

/// The play history after the tracks are replaced; see `history_after_replace`.
fn history_after_replace_exec(
    past: &Vec<QueueTrack>,
    history: &Vec<usize>,
    old_tracks: &Vec<QueueTrack>,
    new_tracks: &Vec<QueueTrack>,
) -> (r: Vec<usize>)
    ensures
        r@ == last_n(
            remap_records(past@, new_tracks@) + remap_history(history@, old_tracks@, new_tracks@),
            HISTORY_LIMIT as int,
        ),
{
    let mut all = remap_records_exec(past, new_tracks);
    let rest = remap_history_exec(history, old_tracks, new_tracks);
    let ghost a0 = all@;
    let mut i: usize = 0;
    while i < rest.len()
        invariant
            0 <= i <= rest@.len(),
            all@ == a0 + rest@.subrange(0, i as int),
        decreases rest@.len() - i,
    {
        all.push(rest[i]);
        i += 1;
        assert(all@ =~= a0 + rest@.subrange(0, i as int));
    }
    assert(rest@.subrange(0, rest@.len() as int) =~= rest@);
    last_indices(&all, HISTORY_LIMIT)
}

fn remap_history_exec(history: &Vec<usize>, old_tracks: &Vec<QueueTrack>, new_tracks: &Vec<QueueTrack>) -> (r: Vec<usize>)
    ensures
        r@ == remap_history(history@, old_tracks@, new_tracks@),
{
    let mut out: Vec<usize> = Vec::new();
    let mut i: usize = 0;
    while i < history.len()
        invariant
            0 <= i <= history@.len(),
            out@ == remap_history(history@.subrange(0, i as int), old_tracks@, new_tracks@),
        decreases history@.len() - i,
    {
        assert(history@.subrange(0, i + 1).drop_last() =~= history@.subrange(0, i as int));
        let old_idx = history[i];
        if old_idx < old_tracks.len() {
            match find_last_id(new_tracks, old_tracks[old_idx].id) {
                Some(j) => out.push(j),
                None => {},
            }
        }
        i += 1;
    }
    assert(history@.subrange(0, history@.len() as int) =~= history@);
    out
}

/// Whether `order` lists each index of `0..track_count` exactly once.
pub fn is_valid_shuffle_order(order: &Vec<usize>, track_count: usize) -> (r: bool)
    ensures
        r == is_permutation(order@, track_count as int),
{
    if order.len() != track_count {
        return false;
    }
    let mut seen: Vec<bool> = vec![false; track_count];
    let mut i: usize = 0;
    while i < order.len()
        invariant
            0 <= i <= order@.len(),
            order@.len() == track_count,
            seen@.len() == track_count,
            forall|k: int| 0 <= k < i ==> order@[k] < track_count && seen@[order@[k] as int],
            forall|a: int, b: int| 0 <= a < b < i ==> order@[a] != order@[b],
            forall|v: int| 0 <= v < track_count && seen@[v] ==> exists|k: int| 0 <= k < i && order@[k] == v,
        decreases order@.len() - i,
    {
        let idx = order[i];
        if idx >= track_count {
            return false;
        }
        if seen[idx] {
            let ghost k = choose|k: int| 0 <= k < i && order@[k] == idx;
            assert(order@[k] == order@[i as int]);
            return false;
        }
        seen.set(idx, true);
        i += 1;
    }
    true
}

/// Indices after a removal at `idx`: entries equal to `idx` dropped, entries
/// above it moved down by one.
fn drop_and_shift_down_exec(v: &Vec<usize>, idx: usize) -> (r: Vec<usize>)
    ensures
        r@ == drop_and_shift_down(v@, idx),
{
    let mut out: Vec<usize> = Vec::new();
    let mut i: usize = 0;
    while i < v.len()
        invariant
            0 <= i <= v@.len(),
            out@ == drop_and_shift_down(v@.subrange(0, i as int), idx),
        decreases v@.len() - i,
    {
        assert(v@.subrange(0, i + 1).drop_last() =~= v@.subrange(0, i as int));
        let x = v[i];
        if x == idx {
        } else if x > idx {
            out.push(x - 1);
        } else {
            out.push(x);
        }
        i += 1;
    }
    assert(v@.subrange(0, v@.len() as int) =~= v@);
    out
}

/// The entries of `v` below `cutoff`, in order.
fn keep_below_exec(v: &Vec<usize>, cutoff: usize) -> (r: Vec<usize>)
    ensures
        r@ == keep_below(v@, cutoff),
{
    let mut out: Vec<usize> = Vec::new();
    let mut i: usize = 0;
    while i < v.len()
        invariant
            0 <= i <= v@.len(),
            out@ == keep_below(v@.subrange(0, i as int), cutoff),
        decreases v@.len() - i,
    {
        assert(v@.subrange(0, i + 1).drop_last() =~= v@.subrange(0, i as int));
        if v[i] < cutoff {
            out.push(v[i]);
        }
        i += 1;
    }
    assert(v@.subrange(0, v@.len() as int) =~= v@);
    out
}

/// Entries above `idx` moved down by one.
fn shift_down(v: &mut Vec<usize>, idx: usize)
    ensures
        final(v)@ == shift_down_above(old(v)@, idx),
{
    let ghost v0 = v@;
    let n = v.len();
    let mut i: usize = 0;
    while i < n
        invariant
            0 <= i <= n,
            n == v@.len(),
            n == v0.len(),
            forall|k: int| 0 <= k < i ==> v@[k] == (if v0[k] > idx { (v0[k] - 1) as usize } else { v0[k] }),
            forall|k: int| i <= k < n ==> v@[k] == v0[k],
        decreases n - i,
    {
        let x = v[i];
        assert(x == v0[i as int]);
        if x > idx {
            v.set(i, x - 1);
        }
        i += 1;
    }
    assert(v@ =~= shift_down_above(v0, idx));
}

/// Where index `idx` ends up when the entry at `from` is moved to `to`.
fn remap_index_after_move_exec(idx: usize, from: usize, to: usize) -> (r: usize)
    ensures
        r == remap_index_after_move(idx, from, to),
{
    if idx == from {
        return to;
    }
    if from < to {
        if idx > from && idx <= to { idx - 1 } else { idx }
    } else {
        if idx >= to && idx < from { idx + 1 } else { idx }
    }
}

/// Record `current` as played: append it to the history, then trim the
/// history from the front to `HISTORY_LIMIT` entries.
fn record_played(history: &mut Vec<usize>, current: Option<usize>)
    ensures
        final(history)@ == history_after_play(old(history)@, current),
{
    match current {
        Some(c) => {
            history.push(c);
            let ghost full = history@;
            assert(full.subrange(0, full.len() as int) =~= full);
            while history.len() > HISTORY_LIMIT
                invariant
                    history@.len() <= full.len(),
                    history@ == full.subrange(full.len() - history@.len(), full.len() as int),
                    full.len() > HISTORY_LIMIT ==> history@.len() >= HISTORY_LIMIT,
                    full.len() <= HISTORY_LIMIT ==> history@.len() == full.len(),
                decreases history@.len(),
            {
                let ghost before = history@;
                history.remove(0);
                assert(history@ =~= full.subrange(full.len() - history@.len(), full.len() as int));
            }
        },
        None => {},
    }
}

/// The tracks that `indices` name, skipping indices out of range.
fn tracks_of_exec(tracks: &Vec<QueueTrack>, indices: &Vec<usize>) -> (r: Vec<QueueTrack>)
    ensures
        r@ == tracks_of(tracks@, indices@),
{
    let mut out: Vec<QueueTrack> = Vec::new();
    let mut i: usize = 0;
    while i < indices.len()
        invariant
            0 <= i <= indices@.len(),
            out@ == tracks_of(tracks@, indices@.subrange(0, i as int)),
        decreases indices@.len() - i,
    {
        assert(indices@.subrange(0, i + 1).drop_last() =~= indices@.subrange(0, i as int));
        let idx = indices[i];
        if idx < tracks.len() {
            out.push(tracks[idx].clone());
        }
        i += 1;
        assert(out@ =~= tracks_of(tracks@, indices@.subrange(0, i as int)));
    }
    assert(indices@.subrange(0, indices@.len() as int) =~= indices@);
    out
}

/// At most `count` indices of `v` starting at `start`.
fn window_indices(v: &Vec<usize>, start: usize, count: usize) -> (r: Vec<usize>)
    ensures
        r@ == window(v@, start as int, count as int),
{
    let lo = if start < v.len() { start } else { v.len() };
    let hi = if count < v.len() - lo { lo + count } else { v.len() };
    let mut out: Vec<usize> = Vec::new();
    let mut i = lo;
    while i < hi
        invariant
            lo <= i <= hi <= v@.len(),
            out@ == v@.subrange(lo as int, i as int),
        decreases hi - i,
    {
        out.push(v[i]);
        i += 1;
        assert(out@ =~= v@.subrange(lo as int, i as int));
    }
    out
}

/// Copies of at most `count` tracks of `v` starting at `start`.
fn window_tracks(v: &Vec<QueueTrack>, start: usize, count: usize) -> (r: Vec<QueueTrack>)
    ensures
        r@ == window(v@, start as int, count as int),
{
    let lo = if start < v.len() { start } else { v.len() };
    let hi = if count < v.len() - lo { lo + count } else { v.len() };
    let mut out: Vec<QueueTrack> = Vec::new();
    let mut i = lo;
    while i < hi
        invariant
            lo <= i <= hi <= v@.len(),
            out@ == v@.subrange(lo as int, i as int),
        decreases hi - i,
    {
        out.push(v[i].clone());
        i += 1;
        assert(out@ =~= v@.subrange(lo as int, i as int));
    }
    out
}

/// Every entry re-pointed after the entry at `from` moved to `to`.
fn remap_all_after_move(v: &mut Vec<usize>, from: usize, to: usize)
    ensures
        final(v)@ == old(v)@.map_values(|h: usize| remap_index_after_move(h, from, to)),
{
    let ghost v0 = v@;
    let n = v.len();
    let mut i: usize = 0;
    while i < n
        invariant
            0 <= i <= n,
            n == v@.len(),
            n == v0.len(),
            forall|k: int| 0 <= k < i ==> v@[k] == remap_index_after_move(v0[k], from, to),
            forall|k: int| i <= k < n ==> v@[k] == v0[k],
        decreases n - i,
    {
        let x = v[i];
        assert(x == v0[i as int]);
        v.set(i, remap_index_after_move_exec(x, from, to));
        i += 1;
    }
    assert(v@ =~= v0.map_values(|h: usize| remap_index_after_move(h, from, to)));
}

/// The last `count` entries of `v`, most recent first.
fn recent_first(v: &Vec<usize>, count: usize) -> (r: Vec<usize>)
    ensures
        r@ == window(v@.reverse(), 0, count as int),
{
    let mut out: Vec<usize> = Vec::new();
    let n = v.len();
    let mut i: usize = 0;
    while i < n && i < count
        invariant
            0 <= i <= n,
            n == v@.len(),
            i <= count,
            out@ == v@.reverse().subrange(0, i as int),
        decreases n - i,
    {
        out.push(v[n - 1 - i]);
        i += 1;
        assert(out@ =~= v@.reverse().subrange(0, i as int));
    }
    out
}

/// The queue and result of moving the upcoming entry at `from_index` to
/// `to_index`: in shuffle mode positions after the current one in the
/// shuffle order (the order is reordered and the position follows the
/// current track); otherwise offsets after the current track in the queue
/// (the current index and history follow the moved tracks). Out-of-range
/// positions change nothing and give `false`.
pub open spec fn track_moved(o: QueueView, from_index: usize, to_index: usize) -> (QueueView, bool) {
    if o.shuffle {
        let base: int = if o.current_index is Some { o.shuffle_position + 1 } else { 0 };
        let fp = base + from_index;
        let tp = base + to_index;
        if fp >= o.shuffle_order.len() || tp >= o.shuffle_order.len() {
            (o, false)
        } else if fp == tp {
            (o, true)
        } else {
            let order = o.shuffle_order.remove(fp).insert(tp, o.shuffle_order[fp]);
            (
                QueueView {
                    shuffle_order: order,
                    shuffle_position: match o.current_index {
                        Some(c) => match first_index_of(order, c) {
                            Some(p) => p as usize,
                            None => o.shuffle_position,
                        },
                        None => 0,
                    },
                    ..o
                },
                true,
            )
        }
    } else {
        let fi: int = match o.current_index {
            Some(c) => from_index + c + 1,
            None => from_index as int,
        };
        let ti0: int = match o.current_index {
            Some(c) => to_index + c + 1,
            None => to_index as int,
        };
        let ti: int = if from_index <= to_index { ti0 - 1 } else { ti0 };
        if fi == ti {
            (o, true)
        } else if fi >= o.tracks.len() || ti >= o.tracks.len() {
            (o, false)
        } else {
            (
                QueueView {
                    tracks: o.tracks.remove(fi).insert(ti, o.tracks[fi]),
                    current_index: match o.current_index {
                        Some(c) => Some(
                            if fi == c {
                                ti as usize
                            } else if fi < c && ti >= c {
                                (c - 1) as usize
                            } else if fi > c && ti <= c {
                                (c + 1) as usize
                            } else {
                                c
                            },
                        ),
                        None => None,
                    },
                    history: o.history.map_values(
                        |h: usize| remap_index_after_move(h, fi as usize, ti as usize),
                    ),
                    ..o
                },
                true,
            )
        }
    }
}

impl QueueManager {
    /// An empty queue: no tracks, no current track, shuffle off, repeat off.
    pub fn new() -> (r: Self)
        ensures
            shuffle_indices_valid(r@),
            r@.tracks.len() == 0,
            r@.current_index is None,
            !r@.shuffle,
            r@.shuffle_order.len() == 0,
            r@.shuffle_position == 0,
            r@.repeat == RepeatMode::Off,
            r@.history.len() == 0,
            r@.stop_after_track_id is None,
            r@.past.len() == 0,
    {
        QueueManager {
            tracks: Vec::new(),
            current_index: None,
            shuffle: false,
            shuffle_order: Vec::new(),
            shuffle_position: 0,
            repeat: RepeatMode::Off,
            history: Vec::new(),
            stop_after_track_id: None,
            past: Vec::new(),
        }
    }

    /// Add a track to the end of the queue (and to the end of the shuffle order).
    pub fn add_track(&mut self, track: QueueTrack)
        ensures
            shuffle_indices_valid(old(self)@) ==> shuffle_indices_valid(final(self)@),
            final(self)@ == appended(old(self)@, track),
            final(self)@.tracks == old(self)@.tracks.push(track),
            final(self)@.current_index == old(self)@.current_index,
            final(self)@.shuffle_position == old(self)@.shuffle_position,
            old(self)@.shuffle ==> final(self)@.shuffle_order
                == old(self)@.shuffle_order.push(old(self)@.tracks.len() as usize),
            !old(self)@.shuffle ==> final(self)@.shuffle_order == old(self)@.shuffle_order,
    {
        self.tracks.push(track);
        if self.shuffle {
            let new_idx = self.tracks.len() - 1;
            self.shuffle_order.push(new_idx);
        }
    }

    /// Add tracks to the end of the queue (and to the end of the shuffle order).
    pub fn add_tracks(&mut self, new_tracks: Vec<QueueTrack>)
        requires
            old(self)@.tracks.len() + new_tracks@.len() <= usize::MAX,
        ensures
            shuffle_indices_valid(old(self)@) ==> shuffle_indices_valid(final(self)@),
            final(self)@ == appended_all(old(self)@, new_tracks@),
            final(self)@.tracks == old(self)@.tracks + new_tracks@,
            final(self)@.current_index == old(self)@.current_index,
            final(self)@.shuffle_position == old(self)@.shuffle_position,
            old(self)@.shuffle ==> final(self)@.shuffle_order.len()
                == old(self)@.shuffle_order.len() + new_tracks@.len(),
            old(self)@.shuffle ==> final(self)@.shuffle_order.subrange(0, old(self)@.shuffle_order.len() as int)
                == old(self)@.shuffle_order,
            old(self)@.shuffle ==> forall|i: int| 0 <= i < new_tracks@.len()
                ==> #[trigger] final(self)@.shuffle_order[old(self)@.shuffle_order.len() + i]
                    == old(self)@.tracks.len() + i,
            !old(self)@.shuffle ==> final(self)@.shuffle_order == old(self)@.shuffle_order,
    {
        let start_idx = self.tracks.len();
        let mut new_tracks = new_tracks;
        self.tracks.append(&mut new_tracks);
        if self.shuffle {
            let end = self.tracks.len();
            push_range(&mut self.shuffle_order, start_idx, end);
        }
    }

    /// Add a track to play next: right after the current track (at the front
    /// when there is none). In shuffle mode it also becomes the next entry of
    /// the shuffle order.
    pub fn add_track_next(&mut self, track: QueueTrack)
        requires
            old(self)@.current_index matches Some(c) ==> c < usize::MAX,
            old(self)@.shuffle ==> forall|i: int|
                0 <= i < old(self)@.shuffle_order.len() ==> old(self)@.shuffle_order[i] < usize::MAX,
            old(self)@.shuffle && old(self)@.current_index is Some
                ==> old(self)@.shuffle_position < usize::MAX,
        ensures
            shuffle_indices_valid(old(self)@) && (old(self)@.current_index matches Some(c) ==> c < old(self)@.tracks.len())
                ==> shuffle_indices_valid(final(self)@),
            final(self)@ == added_next(old(self)@, track),
    {
        let insert_index: usize = match self.current_index {
            Some(idx) => idx + 1,
            None => 0,
        };
        if insert_index >= self.tracks.len() {
            self.tracks.push(track);
        } else {
            self.tracks.insert(insert_index, track);
        }
        if self.shuffle {
            shift_up(&mut self.shuffle_order, insert_index);
            let next_pos = if self.current_index.is_some() {
                self.shuffle_position + 1
            } else {
                self.shuffle_order.len()
            };
            if next_pos >= self.shuffle_order.len() {
                self.shuffle_order.push(insert_index);
            } else {
                self.shuffle_order.insert(next_pos, insert_index);
            }
        }
    }

    /// Set the "stop after" marker to `track_id`, replacing any previous
    /// marker; nothing changes when no queued track has that id.
    pub fn set_stop_after(&mut self, track_id: u64)
        ensures
            shuffle_indices_valid(old(self)@) ==> shuffle_indices_valid(final(self)@),
            final(self)@ == with_stop_after(old(self)@, track_id),
    {
        let mut i: usize = 0;
        while i < self.tracks.len()
            invariant
                0 <= i <= self.tracks@.len(),
                self@ == old(self)@,
                forall|k: int| 0 <= k < i ==> self.tracks@[k].id != track_id,
            decreases self.tracks@.len() - i,
        {
            if self.tracks[i].id == track_id {
                self.stop_after_track_id = Some(track_id);
                return;
            }
            i += 1;
        }
    }

    /// Clear the "stop after" marker.
    pub fn clear_stop_after(&mut self)
        ensures
            shuffle_indices_valid(old(self)@) ==> shuffle_indices_valid(final(self)@),
            final(self)@ == (QueueView { stop_after_track_id: None, ..old(self)@ }),
    {
        self.stop_after_track_id = None;
    }

    /// The "stop after" marker.
    pub fn get_stop_after(&self) -> (r: Option<u64>)
        ensures
            r == self@.stop_after_track_id,
    {
        self.stop_after_track_id
    }

    /// One-shot consume: when the finished track is the marked one, clear the
    /// marker and return true; otherwise change nothing and return false.
    pub fn consume_stop_after_if(&mut self, finished_track_id: u64) -> (r: bool)
        ensures
            shuffle_indices_valid(old(self)@) ==> shuffle_indices_valid(final(self)@),
            r == stop_fires(old(self)@, finished_track_id),
            final(self)@ == after_finished(old(self)@, finished_track_id),
    {
        if self.stop_after_track_id == Some(finished_track_id) {
            self.stop_after_track_id = None;
            true
        } else {
            false
        }
    }

    /// Whether shuffle is on.
    pub fn is_shuffle(&self) -> (r: bool)
        ensures
            r == self@.shuffle,
    {
        self.shuffle
    }

    /// Set the repeat mode.
    pub fn set_repeat(&mut self, mode: RepeatMode)
        ensures
            shuffle_indices_valid(old(self)@) ==> shuffle_indices_valid(final(self)@),
            final(self)@ == (QueueView { repeat: mode, ..old(self)@ }),
    {
        self.repeat = mode;
    }

    /// The repeat mode.
    pub fn get_repeat(&self) -> (r: RepeatMode)
        ensures
            r == self@.repeat,
    {
        self.repeat
    }

    /// The current track, when the current index points into the queue.
    pub fn current_track(&self) -> (r: Option<QueueTrack>)
        ensures
            r == track_at(self@.tracks, self@.current_index),
    {
        match self.current_index {
            Some(idx) => self.track_get(idx),
            None => None,
        }
    }

    /// A copy of the track at `idx`, if there is one.
    fn track_get(&self, idx: usize) -> (r: Option<QueueTrack>)
        ensures
            r == seq_get(self@.tracks, idx as int),
    {
        if idx < self.tracks.len() {
            Some(self.tracks[idx].clone())
        } else {
            None
        }
    }

    /// The shuffle position that keeps pointing at the current track.
    fn current_position_in(order: &Vec<usize>, current: Option<usize>) -> (r: usize)
        ensures
            r == position_of_current(order@, current),
    {
        match current {
            Some(c) => match find_index(order, c) {
                Some(p) => p,
                None => 0,
            },
            None => 0,
        }
    }

    /// A fresh random shuffle order; the position follows the current track.
    fn regenerate_shuffle_order_internal(&mut self)
        ensures
            is_permutation(final(self)@.shuffle_order, old(self)@.tracks.len() as int),
            is_fisher_yates_order(final(self)@.shuffle_order, old(self)@.tracks.len() as int),
            final(self)@.shuffle_position == position_of_current(
                final(self)@.shuffle_order,
                old(self)@.current_index,
            ),
            final(self)@ == (QueueView {
                shuffle_order: final(self)@.shuffle_order,
                shuffle_position: final(self)@.shuffle_position,
                ..old(self)@
            }),
    {
        let order = random_permutation(self.tracks.len());
        self.shuffle_position = Self::current_position_in(&order, self.current_index);
        self.shuffle_order = order;
    }

    /// Take on `order` when it is a permutation of the track indices, the
    /// queue order otherwise.
    fn apply_shuffle_order(&mut self, order: Option<Vec<usize>>)
        ensures
            final(self)@ == (QueueView {
                shuffle_order: authoritative_order(opt_view(order), old(self)@.tracks.len() as int),
                shuffle_position: authoritative_position(
                    opt_view(order),
                    old(self)@.tracks.len() as int,
                    old(self)@.current_index,
                ),
                ..old(self)@
            }),
    {
        match order {
            Some(o) => {
                if is_valid_shuffle_order(&o, self.tracks.len()) {
                    self.shuffle_position = Self::current_position_in(&o, self.current_index);
                    self.shuffle_order = o;
                    return;
                }
            },
            None => {},
        }
        self.shuffle_order = identity_vec(self.tracks.len());
        self.shuffle_position = match self.current_index {
            Some(c) => {
                let last = if self.shuffle_order.len() >= 1 { self.shuffle_order.len() - 1 } else { 0 };
                if c <= last { c } else { last }
            },
            None => 0,
        };
    }

    /// Replace the whole queue and start at `start_index`. The history is
    /// re-pointed to the new tracks by track id, the marker is cleared and a
    /// new random shuffle order is drawn; in shuffle mode a valid start track
    /// is put at the front of that order.
    pub fn set_queue(&mut self, new_tracks: Vec<QueueTrack>, start_index: Option<usize>)
        ensures
            shuffle_indices_valid(old(self)@) ==> shuffle_indices_valid(final(self)@),
            ({
                let o = old(self)@;
                let n = final(self)@;
                &&& is_permutation(n.shuffle_order, new_tracks@.len() as int)
                &&& n.shuffle_position == position_of_current(n.shuffle_order, start_index)
                &&& start_index matches Some(s) ==> (o.shuffle && s < new_tracks@.len() ==> (
                    n.shuffle_order[0] == s && n.shuffle_position == 0))
                &&& exists|drawn: Seq<usize>| #[trigger] is_fisher_yates_order(drawn, new_tracks@.len() as int)
                    && n.shuffle_order == match start_index {
                        Some(s) => if o.shuffle && s < new_tracks@.len() { brought_to_front(drawn, s) } else { drawn },
                        None => drawn,
                    }
                &&& n == (QueueView {
                    tracks: new_tracks@,
                    current_index: start_index,
                    shuffle_order: n.shuffle_order,
                    shuffle_position: n.shuffle_position,
                    history: history_after_replace(o, new_tracks@),
                    past: Seq::empty(),
                    stop_after_track_id: None,
                    ..o
                })
            }),
    {
        self.stop_after_track_id = None;
        self.history = history_after_replace_exec(&self.past, &self.history, &self.tracks, &new_tracks);
        self.past = Vec::new();
        self.tracks = new_tracks;
        self.current_index = start_index;
        self.regenerate_shuffle_order_internal();
        let ghost drawn = self.shuffle_order@;
        if self.shuffle {
            match start_index {
                Some(start_idx) => {
                    if start_idx < self.tracks.len() {
                        match find_index(&self.shuffle_order, start_idx) {
                            Some(pos) => {
                                proof { lemma_first_index_of(self.shuffle_order@, start_idx); }
                                swap_entries(&mut self.shuffle_order, 0, pos, self.tracks.len());
                                self.shuffle_position = 0;
                                proof { lemma_first_index_of(self.shuffle_order@, start_idx); }
                                assert(self.shuffle_order@ =~= brought_to_front(drawn, start_idx));
                            },
                            None => {
                                proof {
                                    lemma_first_index_of(self.shuffle_order@, start_idx);
                                    crate::shuffle::lemma_permutation_contains(
                                        self.shuffle_order@,
                                        self.tracks@.len() as int,
                                        start_idx,
                                    );
                                }
                            },
                        }
                    }
                },
                None => {},
            }
        }
        assert(is_fisher_yates_order(drawn, self.tracks@.len() as int));
    }

    /// Replace the queue and the play order in one update: shuffle is set to
    /// `shuffle_enabled`; when enabled the order is `shuffle_order` if it is a
    /// permutation of the new track indices, the queue order otherwise.
    pub fn set_queue_with_order(
        &mut self,
        new_tracks: Vec<QueueTrack>,
        start_index: Option<usize>,
        shuffle_enabled: bool,
        shuffle_order: Option<Vec<usize>>,
    )
        ensures
            shuffle_indices_valid(old(self)@) ==> shuffle_indices_valid(final(self)@),
            ({
                let o = old(self)@;
                let len = new_tracks@.len() as int;
                final(self)@ == (QueueView {
                    tracks: new_tracks@,
                    current_index: start_index,
                    shuffle: shuffle_enabled,
                    shuffle_order: if shuffle_enabled {
                        authoritative_order(opt_view(shuffle_order), len)
                    } else {
                        Seq::empty()
                    },
                    shuffle_position: if shuffle_enabled {
                        authoritative_position(opt_view(shuffle_order), len, start_index)
                    } else {
                        0
                    },
                    history: history_after_replace(o, new_tracks@),
                    past: Seq::empty(),
                    stop_after_track_id: None,
                    ..o
                })
            }),
            shuffle_enabled ==> (shuffle_order matches Some(v) ==> (is_permutation(v@, new_tracks@.len() as int)
                ==> final(self)@.shuffle_order == v@)),
            shuffle_enabled ==> is_permutation(final(self)@.shuffle_order, new_tracks@.len() as int),
            start_index matches Some(s) ==> (shuffle_enabled && s < new_tracks@.len()
                ==> final(self)@.shuffle_position < final(self)@.shuffle_order.len()
                    && final(self)@.shuffle_order[final(self)@.shuffle_position as int] == s),
    {
        let new_len = new_tracks.len();
        proof {
            lemma_authoritative_valid(opt_view(shuffle_order), new_len as int);
            lemma_authoritative_position_names_current(opt_view(shuffle_order), new_len as int, start_index);
            crate::shuffle::lemma_identity_is_permutation(new_len as int);
        }
        self.stop_after_track_id = None;
        self.history = history_after_replace_exec(&self.past, &self.history, &self.tracks, &new_tracks);
        self.past = Vec::new();
        self.tracks = new_tracks;
        self.current_index = start_index;
        self.shuffle = shuffle_enabled;
        if !shuffle_enabled {
            self.shuffle_order.clear();
            self.shuffle_position = 0;
            return;
        }
        self.apply_shuffle_order(shuffle_order);
    }

    /// Turn shuffle on or off. Turning it on draws a new random order with the
    /// current track (when it is in the queue) at its front and position 0;
    /// turning it off keeps the order; setting the same mode changes nothing.
    pub fn set_shuffle(&mut self, enabled: bool)
        ensures
            shuffle_indices_valid(old(self)@) ==> shuffle_indices_valid(final(self)@),
            ({
                let o = old(self)@;
                let n = final(self)@;
                if o.shuffle == enabled {
                    n == o
                } else if !enabled {
                    n == (QueueView { shuffle: false, ..o })
                } else {
                    &&& is_permutation(n.shuffle_order, o.tracks.len() as int)
                    &&& n.shuffle_position == 0
                    &&& o.current_index matches Some(c) ==> (c < o.tracks.len() ==> n.shuffle_order[0] == c)
                    &&& exists|drawn: Seq<usize>| #[trigger] is_fisher_yates_order(drawn, o.tracks.len() as int)
                        && n.shuffle_order == match o.current_index {
                            Some(c) => brought_to_front(drawn, c),
                            None => drawn,
                        }
                    &&& n == (QueueView {
                        shuffle: true,
                        shuffle_order: n.shuffle_order,
                        shuffle_position: 0,
                        ..o
                    })
                }
            }),
    {
        if self.shuffle == enabled {
            return;
        }
        self.shuffle = enabled;
        if enabled {
            self.regenerate_shuffle_order_internal();
            let ghost drawn = self.shuffle_order@;
            match self.current_index {
                Some(curr_idx) => {
                    let track_count = self.tracks.len();
                    proof {
                        lemma_first_index_of(self.shuffle_order@, curr_idx);
                        if curr_idx < track_count {
                            crate::shuffle::lemma_permutation_contains(
                                self.shuffle_order@,
                                track_count as int,
                                curr_idx,
                            );
                        }
                    }
                    match find_index(&self.shuffle_order, curr_idx) {
                        Some(pos) => {
                            if pos != 0 {
                                swap_entries(&mut self.shuffle_order, 0, pos, self.tracks.len());
                            }
                            self.shuffle_position = 0;
                            assert(self.shuffle_order@ =~= brought_to_front(drawn, curr_idx));
                        },
                        None => {},
                    }
                },
                None => {},
            }
            assert(is_fisher_yates_order(drawn, self.tracks@.len() as int));
        }
    }

    /// Set shuffle mode from an order produced elsewhere: when enabled, take
    /// `shuffle_order` if it is a permutation of the track indices and the
    /// queue order otherwise; when disabled, drop the order.
    pub fn set_shuffle_with_order(&mut self, enabled: bool, shuffle_order: Option<Vec<usize>>)
        ensures
            shuffle_indices_valid(old(self)@) ==> shuffle_indices_valid(final(self)@),
            ({
                let o = old(self)@;
                let len = o.tracks.len() as int;
                final(self)@ == (QueueView {
                    shuffle: enabled,
                    shuffle_order: if enabled {
                        authoritative_order(opt_view(shuffle_order), len)
                    } else {
                        Seq::empty()
                    },
                    shuffle_position: if enabled {
                        authoritative_position(opt_view(shuffle_order), len, o.current_index)
                    } else {
                        0
                    },
                    ..o
                })
            }),
            enabled ==> (shuffle_order matches Some(v) ==> (is_permutation(v@, old(self)@.tracks.len() as int)
                ==> final(self)@.shuffle_order == v@)),
            enabled ==> is_permutation(final(self)@.shuffle_order, old(self)@.tracks.len() as int),
            old(self)@.current_index matches Some(c) ==> (enabled && c < old(self)@.tracks.len()
                ==> final(self)@.shuffle_position < final(self)@.shuffle_order.len()
                    && final(self)@.shuffle_order[final(self)@.shuffle_position as int] == c),
    {
        let track_count = self.tracks.len();
        proof {
            lemma_authoritative_valid(opt_view(shuffle_order), track_count as int);
            lemma_authoritative_position_names_current(opt_view(shuffle_order), track_count as int, self.current_index);
            crate::shuffle::lemma_identity_is_permutation(track_count as int);
        }
        self.shuffle = enabled;
        if !enabled {
            self.shuffle_order.clear();
            self.shuffle_position = 0;
            return;
        }
        self.apply_shuffle_order(shuffle_order);
    }

    /// Remove the track at `index` (in range), re-aligning the current index,
    /// history, shuffle order and marker.
    fn remove_at(&mut self, index: usize) -> (r: QueueTrack)
        requires
            index < old(self)@.tracks.len(),
        ensures
            r == old(self)@.tracks[index as int],
            final(self)@ == removed_at(old(self)@, index),
    {
        let removed = self.tracks.remove(index);
        if self.stop_after_track_id == Some(removed.id) {
            self.stop_after_track_id = None;
        }
        match self.current_index {
            Some(curr_idx) => {
                if index < curr_idx {
                    self.current_index = Some(curr_idx - 1);
                } else if index == curr_idx && curr_idx >= self.tracks.len() {
                    self.current_index = if self.tracks.len() == 0 {
                        None
                    } else {
                        Some(self.tracks.len() - 1)
                    };
                }
            },
            None => {},
        }
        self.history = drop_and_shift_down_exec(&self.history, index);
        if self.shuffle {
            proof { lemma_first_index_of(self.shuffle_order@, index); }
            let ghost order0 = self.shuffle_order@;
            match find_index(&self.shuffle_order, index) {
                Some(pos) => {
                    assert(pos as int == first_index_of(order0, index).unwrap());
                    self.shuffle_order.remove(pos);
                    assert(self.shuffle_order@ == order0.remove(first_index_of(order0, index).unwrap()));
                },
                None => {},
            }
            shift_down(&mut self.shuffle_order, index);
            assert(self.shuffle_order@ == order_after_removal(order0, index));
            self.shuffle_position = Self::current_position_in(&self.shuffle_order, self.current_index);
        }
        removed
    }

    /// Remove the track at `index`; `None` and no change when out of range.
    pub fn remove_track(&mut self, index: usize) -> (r: Option<QueueTrack>)
        ensures
            shuffle_indices_valid(old(self)@) ==> shuffle_indices_valid(final(self)@),
            index >= old(self)@.tracks.len() ==> r is None && final(self)@ == old(self)@,
            index < old(self)@.tracks.len() ==> r == Some(old(self)@.tracks[index as int])
                && final(self)@ == removed_at(old(self)@, index),
            index < old(self)@.tracks.len() ==> final(self)@.tracks == old(self)@.tracks.remove(index as int),
            old(self)@.current_index matches Some(c) ==> (c < old(self)@.tracks.len() && index != c
                ==> track_at(final(self)@.tracks, final(self)@.current_index) == Some(old(self)@.tracks[c as int])),
            final(self)@.current_index matches Some(c) ==> (index < old(self)@.tracks.len() && final(self)@.shuffle
                && final(self)@.shuffle_order.contains(c)
                ==> final(self)@.shuffle_position < final(self)@.shuffle_order.len()
                    && final(self)@.shuffle_order[final(self)@.shuffle_position as int] == c),
    {
        if index >= self.tracks.len() {
            return None;
        }
        proof {
            if shuffle_indices_valid(self@) {
                lemma_removed_at_valid(self@, index);
            }
            assert(self.shuffle_order.len() == self@.shuffle_order.len());
            lemma_removal_keeps_current_track(self@, index);
        }
        Some(self.remove_at(index))
    }

    /// Remove the track at position `upcoming_index` of the upcoming list
    /// (shuffle order in shuffle mode, queue order otherwise).
    pub fn remove_upcoming_track(&mut self, upcoming_index: usize) -> (r: Option<QueueTrack>)
        requires
            old(self)@.shuffle ==> old(self)@.shuffle_position + 1 + upcoming_index <= usize::MAX,
            !old(self)@.shuffle ==> (old(self)@.current_index matches Some(c)
                ==> c + 1 + upcoming_index <= usize::MAX),
        ensures
            shuffle_indices_valid(old(self)@) ==> shuffle_indices_valid(final(self)@),
            ({
                let o = old(self)@;
                match upcoming_target(o, upcoming_index) {
                    Some(idx) => if idx < o.tracks.len() {
                        r == Some(o.tracks[idx as int]) && final(self)@ == removed_at(o, idx)
                    } else {
                        r is None && final(self)@ == o
                    },
                    None => r is None && final(self)@ == o,
                }
            }),
            ({
                let o = old(self)@;
                let sp = o.shuffle_position + 1 + upcoming_index;
                match o.current_index {
                    Some(c) => if o.shuffle {
                        sp < o.shuffle_order.len() && o.shuffle_order[sp] < o.tracks.len()
                            ==> r == Some(o.tracks[o.shuffle_order[sp] as int])
                    } else {
                        c + 1 + upcoming_index < o.tracks.len() ==> r == Some(o.tracks[c + 1 + upcoming_index])
                    },
                    None => !o.shuffle && upcoming_index < o.tracks.len() ==> r == Some(o.tracks[upcoming_index as int]),
                }
            }),
            ({
                let o = old(self)@;
                match (upcoming_target(o, upcoming_index), o.current_index) {
                    (Some(idx), Some(c)) => idx < o.tracks.len() && c < o.tracks.len() && idx != c
                        ==> track_at(final(self)@.tracks, final(self)@.current_index) == Some(o.tracks[c as int]),
                    _ => true,
                }
            }),
    {
        let actual_index = if self.shuffle {
            let shuffle_pos = self.shuffle_position + 1 + upcoming_index;
            if shuffle_pos >= self.shuffle_order.len() {
                return None;
            }
            self.shuffle_order[shuffle_pos]
        } else {
            match self.current_index {
                Some(curr_idx) => curr_idx + 1 + upcoming_index,
                None => upcoming_index,
            }
        };
        if actual_index >= self.tracks.len() {
            return None;
        }
        proof {
            if shuffle_indices_valid(self@) {
                lemma_removed_at_valid(self@, actual_index);
            }
            assert(self.shuffle_order.len() == self@.shuffle_order.len());
            lemma_removal_keeps_current_track(self@, actual_index);
        }
        Some(self.remove_at(actual_index))
    }

    /// Remove every track after `index`, keeping the track at `index`, and
    /// return how many were removed (0, with no change, when `index` is the
    /// last position or out of range). The shuffle order and history lose the
    /// removed indices; the marker is cleared when it named a removed track.
    pub fn remove_after(&mut self, index: usize) -> (r: usize)
        requires
            index < usize::MAX,
        ensures
            shuffle_indices_valid(old(self)@) ==> shuffle_indices_valid(final(self)@),
            ({
                let o = old(self)@;
                let cutoff = (index + 1) as usize;
                if index + 1 >= o.tracks.len() {
                    r == 0 && final(self)@ == o
                } else {
                    let order = keep_below(o.shuffle_order, cutoff);
                    &&& r == o.tracks.len() - cutoff
                    &&& final(self)@ == (QueueView {
                        tracks: o.tracks.subrange(0, cutoff as int),
                        shuffle_order: if o.shuffle { order } else { o.shuffle_order },
                        shuffle_position: if o.shuffle && o.shuffle_position >= order.len() {
                            if order.len() >= 1 { (order.len() - 1) as usize } else { 0 }
                        } else {
                            o.shuffle_position
                        },
                        history: keep_below(o.history, cutoff),
                        stop_after_track_id: match o.stop_after_track_id {
                            Some(m) => if exists|i: int| cutoff <= i < o.tracks.len() && o.tracks[i].id == m {
                                None
                            } else {
                                Some(m)
                            },
                            None => None,
                        },
                        ..o
                    })
                }
            }),
    {
        proof {
            if shuffle_indices_valid(self@) && self@.shuffle {
                lemma_keep_below_valid(self@.shuffle_order, self@.tracks.len() as int, (index + 1) as usize);
            }
        }
        if index + 1 >= self.tracks.len() {
            return 0;
        }
        let cutoff = index + 1;
        let removed_count = self.tracks.len() - cutoff;
        let marker_removed = match self.stop_after_track_id {
            Some(marker_id) => Self::any_id_from(&self.tracks, cutoff, marker_id),
            None => false,
        };
        self.tracks.truncate(cutoff);
        if self.shuffle {
            self.shuffle_order = keep_below_exec(&self.shuffle_order, cutoff);
            if self.shuffle_position >= self.shuffle_order.len() {
                self.shuffle_position = if self.shuffle_order.len() >= 1 {
                    self.shuffle_order.len() - 1
                } else {
                    0
                };
            }
        }
        self.history = keep_below_exec(&self.history, cutoff);
        if marker_removed {
            self.stop_after_track_id = None;
        }
        removed_count
    }

    /// Whether a track at or after `from` has id `id`.
    fn any_id_from(tracks: &Vec<QueueTrack>, from: usize, id: u64) -> (r: bool)
        ensures
            r == exists|i: int| from <= i < tracks@.len() && tracks@[i].id == id,
    {
        let mut i = from;
        while i < tracks.len()
            invariant
                from <= i,
                forall|k: int| from <= k < i && k < tracks@.len() ==> tracks@[k].id != id,
            decreases tracks@.len() - i,
        {
            if tracks[i].id == id {
                return true;
            }
            i += 1;
        }
        false
    }

    /// Clear the queue. With `keep_current` and a current index, the current
    /// track stays as the only entry, so "now playing" does not go dark;
    /// otherwise all tracks go. The play history is kept: the played tracks
    /// move to the cleared-out records that snapshots still show. The
    /// shuffle order and marker are cleared.
    pub fn clear(&mut self, keep_current: bool)
        ensures
            shuffle_indices_valid(old(self)@) ==> shuffle_indices_valid(final(self)@),
            final(self)@ == cleared(old(self)@, keep_current),
    {
        self.stop_after_track_id = None;
        let played = tracks_of_exec(&self.tracks, &self.history);
        let mut all_past = clone_tracks(&self.past);
        append_tracks(&mut all_past, &played);
        self.past = last_tracks(&all_past, HISTORY_LIMIT);
        self.history = Vec::new();
        if keep_current && self.current_index.is_some() {
            let c = self.current_index.unwrap();
            if c < self.tracks.len() {
                let current = self.tracks.remove(c);
                self.tracks.clear();
                self.tracks.push(current);
                assert(self.tracks@ =~= old(self)@.tracks.subrange(c as int, c + 1));
            } else {
                self.tracks.truncate(1);
            }
            self.current_index = Some(0);
        } else {
            self.tracks.clear();
            self.current_index = None;
        }
        self.shuffle_order.clear();
        self.shuffle_position = 0;
    }

    /// Move a track within the upcoming list. In shuffle mode `from_index`
    /// and `to_index` are positions after the current one in the shuffle
    /// order and the shuffle order is reordered; otherwise they are offsets
    /// after the current track in the queue, and the current index and
    /// history follow the moved tracks. Returns false, changing nothing, when
    /// a position is out of range.
    pub fn move_track(&mut self, from_index: usize, to_index: usize) -> (r: bool)
        requires
            old(self)@.shuffle ==> (old(self)@.current_index is Some ==> (
                old(self)@.shuffle_position + 1 + from_index <= usize::MAX
                && old(self)@.shuffle_position + 1 + to_index <= usize::MAX)),
            !old(self)@.shuffle ==> (old(self)@.current_index matches Some(c) ==> (
                from_index + c + 1 <= usize::MAX && to_index + c + 1 <= usize::MAX)),
            !old(self)@.shuffle && old(self)@.current_index is None ==> !(from_index == 0 && to_index == 0),
        ensures
            shuffle_indices_valid(old(self)@) ==> shuffle_indices_valid(final(self)@),
            (final(self)@, r) == track_moved(old(self)@, from_index, to_index),
    {
        proof {
            if shuffle_indices_valid(self@) {
                lemma_track_moved_valid(self@, from_index, to_index);
            }
        }
        if self.shuffle {
            let base_pos = if self.current_index.is_some() { self.shuffle_position + 1 } else { 0 };
            let from_pos = base_pos + from_index;
            let to_pos = base_pos + to_index;
            if from_pos >= self.shuffle_order.len() || to_pos >= self.shuffle_order.len() {
                return false;
            }
            if from_pos == to_pos {
                return true;
            }
            let moved = self.shuffle_order.remove(from_pos);
            self.shuffle_order.insert(to_pos, moved);
            match self.current_index {
                Some(curr_idx) => {
                    match find_index(&self.shuffle_order, curr_idx) {
                        Some(pos) => {
                            self.shuffle_position = pos;
                        },
                        None => {},
                    }
                },
                None => {
                    self.shuffle_position = 0;
                },
            }
            return true;
        }
        let moving_down = !(from_index > to_index);
        let mut from_idx = from_index;
        let mut to_idx = to_index;
        match self.current_index {
            Some(curr_idx) => {
                from_idx = from_idx + curr_idx + 1;
                to_idx = to_idx + curr_idx + 1;
            },
            None => {},
        }
        if moving_down {
            to_idx = to_idx - 1;
        }
        if from_idx == to_idx {
            return true;
        }
        if from_idx >= self.tracks.len() || to_idx >= self.tracks.len() {
            return false;
        }
        let track = self.tracks.remove(from_idx);
        self.tracks.insert(to_idx, track);
        match self.current_index {
            Some(curr_idx) => {
                if from_idx == curr_idx {
                    self.current_index = Some(to_idx);
                } else if from_idx < curr_idx && to_idx >= curr_idx {
                    self.current_index = Some(curr_idx - 1);
                } else if from_idx > curr_idx && to_idx <= curr_idx {
                    self.current_index = Some(curr_idx + 1);
                }
            },
            None => {},
        }
        remap_all_after_move(&mut self.history, from_idx, to_idx);
        true
    }

    /// Jump to the track at `index`. The current track goes to the history;
    /// in shuffle mode the position follows. `None`, with no change, when out
    /// of range.
    pub fn play_index(&mut self, index: usize) -> (r: Option<QueueTrack>)
        ensures
            shuffle_indices_valid(old(self)@) ==> shuffle_indices_valid(final(self)@),
            index >= old(self)@.tracks.len() ==> r is None && final(self)@ == old(self)@,
            index < old(self)@.tracks.len() ==> r == Some(old(self)@.tracks[index as int])
                && final(self)@ == played(old(self)@, index),
            index < old(self)@.tracks.len() ==> final(self)@.current_index == Some(index),
            index < old(self)@.tracks.len() && old(self)@.shuffle && old(self)@.shuffle_order.contains(index)
                ==> final(self)@.shuffle_position < final(self)@.shuffle_order.len()
                    && final(self)@.shuffle_order[final(self)@.shuffle_position as int] == index,
    {
        if index >= self.tracks.len() {
            return None;
        }
        proof {
            if self@.shuffle && self@.shuffle_order.contains(index) {
                assert(self.shuffle_order.len() == self@.shuffle_order.len());
                lemma_jump_points_position_at_track(self@, index);
            }
        }
        record_played(&mut self.history, self.current_index);
        self.current_index = Some(index);
        if self.shuffle {
            match find_index(&self.shuffle_order, index) {
                Some(pos) => {
                    self.shuffle_position = pos;
                },
                None => {},
            }
        }
        Some(self.tracks[index].clone())
    }

    /// Jump to the track at position `upcoming_index` of the upcoming list
    /// as a snapshot shows it (shuffle order in shuffle mode).
    pub fn play_upcoming_at(&mut self, upcoming_index: usize) -> (r: Option<QueueTrack>)
        requires
            old(self)@.current_index matches Some(c) ==> (if old(self)@.shuffle {
                old(self)@.shuffle_position + 1 + upcoming_index <= usize::MAX
            } else {
                c + 1 + upcoming_index <= usize::MAX
            }),
        ensures
            shuffle_indices_valid(old(self)@) ==> shuffle_indices_valid(final(self)@),
            ({
                let o = old(self)@;
                match jump_target(o, upcoming_index) {
                    Some(idx) => if idx < o.tracks.len() {
                        r == Some(o.tracks[idx as int]) && final(self)@ == played(o, idx)
                    } else {
                        r is None && final(self)@ == o
                    },
                    None => r is None && final(self)@ == o,
                }
            }),
    {
        let canonical_index = match self.current_index {
            Some(curr_idx) => if self.shuffle {
                let p = self.shuffle_position + 1 + upcoming_index;
                if p < self.shuffle_order.len() { Some(self.shuffle_order[p]) } else { None }
            } else {
                Some(curr_idx + 1 + upcoming_index)
            },
            None => Some(upcoming_index),
        };
        match canonical_index {
            Some(idx) => self.play_index(idx),
            None => None,
        }
    }

    /// The next track in play order, without moving: the current track under
    /// repeat-one, wrapping to the start under repeat-all.
    pub fn peek_next(&self) -> (r: Option<QueueTrack>)
        requires
            self@.shuffle ==> self@.shuffle_position < usize::MAX,
        ensures
            r == (if self@.tracks.len() == 0 {
                None
            } else if self@.repeat == RepeatMode::One {
                track_at(self@.tracks, self@.current_index)
            } else {
                track_at(self@.tracks, next_index(self@))
            }),
            self@.repeat != RepeatMode::One && self@.shuffle
                && self@.shuffle_position + 1 < self@.shuffle_order.len()
                ==> r == seq_get(self@.tracks, self@.shuffle_order[self@.shuffle_position + 1] as int),
            self@.current_index matches Some(c) ==> (self@.repeat != RepeatMode::One && !self@.shuffle
                && c + 1 < self@.tracks.len() ==> r == Some(self@.tracks[c + 1])),
    {
        if self.tracks.len() == 0 {
            return None;
        }
        if self.repeat == RepeatMode::One {
            return self.current_track();
        }
        let next_idx = self.next_index_exec();
        match next_idx {
            Some(idx) => self.track_get(idx),
            None => None,
        }
    }

    /// The track index that follows the current one in play order.
    fn next_index_exec(&self) -> (r: Option<usize>)
        requires
            self@.shuffle ==> self@.shuffle_position < usize::MAX,
        ensures
            r == next_index(self@),
            self@.shuffle && self@.shuffle_position + 1 < self@.shuffle_order.len()
                ==> r == Some(self@.shuffle_order[self@.shuffle_position + 1]),
            self@.current_index matches Some(c) ==> (!self@.shuffle && c + 1 < self@.tracks.len()
                ==> r == Some((c + 1) as usize)),
    {
        if self.shuffle {
            let next_pos = self.shuffle_position + 1;
            if next_pos < self.shuffle_order.len() {
                Some(self.shuffle_order[next_pos])
            } else if self.repeat == RepeatMode::All {
                if self.shuffle_order.len() > 0 { Some(self.shuffle_order[0]) } else { None }
            } else {
                None
            }
        } else {
            let curr_idx = match self.current_index {
                Some(c) => c,
                None => 0,
            };
            if curr_idx < self.tracks.len() && curr_idx + 1 < self.tracks.len() {
                Some(curr_idx + 1)
            } else if self.repeat == RepeatMode::All {
                Some(0)
            } else {
                None
            }
        }
    }

    /// Advance to the next track and return it. The current track goes to
    /// the history. Under repeat-one the current track stays; in shuffle mode
    /// the position moves on (back to 0 under repeat-all at the end).
    pub fn next(&mut self) -> (r: Option<QueueTrack>)
        requires
            old(self)@.shuffle ==> old(self)@.shuffle_position < usize::MAX,
        ensures
            shuffle_indices_valid(old(self)@) ==> shuffle_indices_valid(final(self)@),
            ({
                let o = old(self)@;
                let n = final(self)@;
                let h = history_after_play(o.history, o.current_index);
                if o.tracks.len() == 0 {
                    r is None && n == o
                } else if o.repeat == RepeatMode::One {
                    r == track_at(o.tracks, o.current_index) && n == (QueueView { history: h, ..o })
                } else {
                    let next = next_index(o);
                    &&& r == track_at(o.tracks, next)
                    &&& n == (QueueView {
                        history: h,
                        current_index: next,
                        shuffle_position: if !o.shuffle {
                            o.shuffle_position
                        } else if o.shuffle_position + 1 < o.shuffle_order.len() {
                            (o.shuffle_position + 1) as usize
                        } else if o.repeat == RepeatMode::All {
                            0
                        } else {
                            (o.shuffle_position + 1) as usize
                        },
                        ..o
                    })
                }
            }),
            ({
                let o = old(self)@;
                let p = o.shuffle_position + 1;
                o.tracks.len() > 0 && o.repeat != RepeatMode::One && o.shuffle && p < o.shuffle_order.len()
                    ==> r == seq_get(o.tracks, o.shuffle_order[p] as int)
                        && final(self)@.current_index == Some(o.shuffle_order[p])
                        && final(self)@.shuffle_position == p
            }),
            ({
                let o = old(self)@;
                let n = final(self)@;
                let at_end = if o.shuffle {
                    o.shuffle_position + 1 >= o.shuffle_order.len()
                } else {
                    (match o.current_index {
                        Some(c) => c as int,
                        None => 0,
                    }) + 1 >= o.tracks.len()
                };
                let first: Option<usize> = if o.shuffle { seq_get(o.shuffle_order, 0) } else { Some(0) };
                o.tracks.len() > 0 && at_end ==> (if o.repeat == RepeatMode::All {
                    r == track_at(o.tracks, first) && n.current_index == first
                } else if o.repeat == RepeatMode::Off {
                    r is None && n.current_index is None
                } else {
                    true
                })
            }),
            old(self)@.current_index matches Some(c) ==> (old(self)@.repeat != RepeatMode::One
                && !old(self)@.shuffle && c + 1 < old(self)@.tracks.len()
                ==> r == Some(old(self)@.tracks[c + 1])
                    && final(self)@.current_index == Some((c + 1) as usize)),
    {
        if self.tracks.len() == 0 {
            return None;
        }
        record_played(&mut self.history, self.current_index);
        if self.repeat == RepeatMode::One {
            return self.current_track();
        }
        let next_idx = self.next_index_exec();
        if self.shuffle {
            self.shuffle_position = self.shuffle_position + 1;
            if self.shuffle_position >= self.shuffle_order.len() && self.repeat == RepeatMode::All {
                self.shuffle_position = 0;
            }
        }
        self.current_index = next_idx;
        match next_idx {
            Some(idx) => self.track_get(idx),
            None => None,
        }
    }

    /// Go back to the previous track and return it: the most recent history
    /// entry when there is one; otherwise one step back in play order (the
    /// end under repeat-all, the start otherwise).
    pub fn previous(&mut self) -> (r: Option<QueueTrack>)
        requires
            old(self)@.shuffle && old(self)@.history.len() == 0 && old(self)@.shuffle_position > 0
                ==> old(self)@.shuffle_position - 1 < old(self)@.shuffle_order.len(),
        ensures
            shuffle_indices_valid(old(self)@) ==> shuffle_indices_valid(final(self)@),
            ({
                let o = old(self)@;
                let n = final(self)@;
                if o.tracks.len() == 0 {
                    r is None && n == o
                } else if o.history.len() > 0 {
                    let prev = o.history.last();
                    &&& r == seq_get(o.tracks, prev as int)
                    &&& n == (QueueView {
                        history: o.history.drop_last(),
                        current_index: Some(prev),
                        shuffle_position: if o.shuffle {
                            match first_index_of(o.shuffle_order, prev) {
                                Some(p) => p as usize,
                                None => o.shuffle_position,
                            }
                        } else {
                            o.shuffle_position
                        },
                        ..o
                    })
                } else if o.shuffle {
                    if o.shuffle_position > 0 {
                        let p = (o.shuffle_position - 1) as usize;
                        r == seq_get(o.tracks, o.shuffle_order[p as int] as int) && n == (QueueView {
                            shuffle_position: p,
                            current_index: Some(o.shuffle_order[p as int]),
                            ..o
                        })
                    } else if o.repeat == RepeatMode::All {
                        let last = if o.shuffle_order.len() >= 1 { o.shuffle_order.len() - 1 } else { 0 };
                        let cur = seq_get(o.shuffle_order, o.shuffle_order.len() - 1);
                        r == track_at(o.tracks, cur) && n == (QueueView {
                            shuffle_position: last as usize,
                            current_index: cur,
                            ..o
                        })
                    } else {
                        let cur = seq_get(o.shuffle_order, 0);
                        r == track_at(o.tracks, cur) && n == (QueueView { current_index: cur, ..o })
                    }
                } else {
                    let c: int = match o.current_index {
                        Some(c) => c as int,
                        None => 0,
                    };
                    let prev: int = if c > 0 {
                        c - 1
                    } else if o.repeat == RepeatMode::All {
                        o.tracks.len() - 1
                    } else {
                        0
                    };
                    r == seq_get(o.tracks, prev) && n == (QueueView {
                        current_index: Some(prev as usize),
                        ..o
                    })
                }
            }),
    {
        if self.tracks.len() == 0 {
            return None;
        }
        match self.history.pop() {
            Some(prev_idx) => {
                self.current_index = Some(prev_idx);
                if self.shuffle {
                    match find_index(&self.shuffle_order, prev_idx) {
                        Some(pos) => {
                            self.shuffle_position = pos;
                        },
                        None => {},
                    }
                }
                return self.track_get(prev_idx);
            },
            None => {},
        }
        let prev_idx = if self.shuffle {
            if self.shuffle_position > 0 {
                self.shuffle_position = self.shuffle_position - 1;
                Some(self.shuffle_order[self.shuffle_position])
            } else if self.repeat == RepeatMode::All {
                let n = self.shuffle_order.len();
                self.shuffle_position = if n >= 1 { n - 1 } else { 0 };
                if n >= 1 { Some(self.shuffle_order[n - 1]) } else { None }
            } else {
                if self.shuffle_order.len() >= 1 { Some(self.shuffle_order[0]) } else { None }
            }
        } else {
            let curr_idx = match self.current_index {
                Some(c) => c,
                None => 0,
            };
            if curr_idx > 0 {
                Some(curr_idx - 1)
            } else if self.repeat == RepeatMode::All {
                Some(self.tracks.len() - 1)
            } else {
                Some(0)
            }
        };
        self.current_index = prev_idx;
        match prev_idx {
            Some(idx) => self.track_get(idx),
            None => None,
        }
    }

    /// Up to `count` upcoming tracks without moving (none under repeat-one;
    /// wrapping around under repeat-all).
    pub fn peek_upcoming(&self, count: usize) -> (r: Vec<QueueTrack>)
        requires
            self@.shuffle ==> self@.shuffle_position + 1 + count <= usize::MAX,
            !self@.shuffle ==> (self@.current_index matches Some(c) ==> c + 1 + count <= usize::MAX),
            !self@.shuffle ==> count <= usize::MAX,
            !(self@.shuffle && self@.repeat == RepeatMode::All && self@.shuffle_order.len() == 0
                && self@.tracks.len() > 0 && count > 0),
        ensures
            r@ == (if self@.tracks.len() == 0 || count == 0 || self@.repeat == RepeatMode::One {
                Seq::empty()
            } else {
                peek_slots(self@, count as nat)
            }),
            self@.repeat == RepeatMode::Off && self@.shuffle ==> r@ == tracks_of(
                self@.tracks,
                window(self@.shuffle_order, self@.shuffle_position + 1, count as int),
            ),
            self@.repeat == RepeatMode::Off && !self@.shuffle ==> r@ == (match self@.current_index {
                Some(c) => window(self@.tracks, c + 1, count as int),
                None => window(self@.tracks, 0, count as int),
            }),
    {
        proof {
            if self@.repeat == RepeatMode::Off {
                lemma_peek_lists_following_tracks(self@, count as nat);
                let w = window(self@.shuffle_order, self@.shuffle_position + 1, count as int);
                if count == 0 {
                    assert(w =~= Seq::<usize>::empty());
                }
                if self@.tracks.len() == 0 {
                    lemma_tracks_of_none_in_range(self@.tracks, w);
                    let start: int = match self@.current_index {
                        Some(c) => c + 1,
                        None => 0,
                    };
                    assert(window(self@.tracks, start, count as int) =~= Seq::<QueueTrack>::empty());
                }
            }
        }
        let mut result: Vec<QueueTrack> = Vec::new();
        if self.tracks.len() == 0 || count == 0 {
            return result;
        }
        if self.repeat == RepeatMode::One {
            return result;
        }
        let mut i: usize = 0;
        while i < count
            invariant
                0 <= i <= count,
                self@.tracks.len() > 0,
                self@.repeat != RepeatMode::One,
                self@.shuffle ==> self@.shuffle_position + 1 + count <= usize::MAX,
                !self@.shuffle ==> (self@.current_index matches Some(c) ==> c + 1 + count <= usize::MAX),
                !(self@.shuffle && self@.repeat == RepeatMode::All && self@.shuffle_order.len() == 0),
                result@ == peek_slots(self@, i as nat),
            decreases count - i,
        {
            if self.shuffle {
                let pos = self.shuffle_position + 1 + i;
                if pos < self.shuffle_order.len() {
                    match self.track_get(self.shuffle_order[pos]) {
                        Some(t) => result.push(t),
                        None => {},
                    }
                } else if self.repeat == RepeatMode::All {
                    let wrapped_pos = pos % self.shuffle_order.len();
                    match self.track_get(self.shuffle_order[wrapped_pos]) {
                        Some(t) => result.push(t),
                        None => {},
                    }
                }
            } else {
                let start_idx = match self.current_index {
                    Some(c) => c + 1,
                    None => 0,
                };
                let idx = start_idx + i;
                if idx < self.tracks.len() {
                    result.push(self.tracks[idx].clone());
                } else if self.repeat == RepeatMode::All {
                    let wrapped_idx = idx % self.tracks.len();
                    result.push(self.tracks[wrapped_idx].clone());
                }
            }
            i += 1;
            assert(result@ =~= peek_slots(self@, i as nat));
        }
        result
    }

    /// Snapshot of the queue: the current track, up to `UPCOMING_LIMIT`
    /// upcoming tracks (in shuffle order when shuffle is on), up to
    /// `HISTORY_SNAPSHOT_LIMIT` history tracks (most recent first), and the
    /// modes, track count and marker.
    pub fn get_state(&self) -> (r: QueueState)
        requires
            self@.current_index matches Some(c) ==> (if self@.shuffle {
                self@.shuffle_position < usize::MAX
            } else {
                c < usize::MAX
            }),
        ensures
            r.current_track == track_at(self@.tracks, self@.current_index),
            r.current_index == self@.current_index,
            r.upcoming@ == snapshot_upcoming(self@),
            r.history@ == snapshot_history(self@),
            r.shuffle == self@.shuffle,
            r.repeat == self@.repeat,
            r.total_tracks == self@.tracks.len(),
            r.stop_after_track_id == self@.stop_after_track_id,
    {
        let current_track = self.current_track();
        let upcoming = match self.current_index {
            Some(curr_idx) => if self.shuffle {
                let idxs = window_indices(&self.shuffle_order, self.shuffle_position + 1, UPCOMING_LIMIT);
                tracks_of_exec(&self.tracks, &idxs)
            } else {
                window_tracks(&self.tracks, curr_idx + 1, UPCOMING_LIMIT)
            },
            None => window_tracks(&self.tracks, 0, UPCOMING_LIMIT),
        };
        let recent = recent_first(&self.history, HISTORY_SNAPSHOT_LIMIT);
        let mut history_tracks = tracks_of_exec(&self.tracks, &recent);
        let earlier = recent_tracks(&self.past, HISTORY_SNAPSHOT_LIMIT - recent.len());
        append_tracks(&mut history_tracks, &earlier);
        QueueState {
            current_track,
            current_index: self.current_index,
            upcoming,
            history: history_tracks,
            shuffle: self.shuffle,
            repeat: self.repeat,
            total_tracks: self.tracks.len(),
            stop_after_track_id: self.stop_after_track_id,
        }
    }

    /// All tracks of the queue and the current index.
    pub fn get_all_tracks(&self) -> (r: (Vec<QueueTrack>, Option<usize>))
        ensures
            r.0@ == self@.tracks,
            r.1 == self@.current_index,
    {
        let all = window_tracks(&self.tracks, 0, self.tracks.len());
        proof {
            assert(self@.tracks.subrange(0, self@.tracks.len() as int) =~= self@.tracks);
        }
        (all, self.current_index)
    }

    /// Position of the current track in the shuffle order.
    pub fn shuffle_position(&self) -> (r: usize)
        ensures
            r == self@.shuffle_position,
    {
        self.shuffle_position
    }

    /// The shuffle order.
    pub fn shuffle_order(&self) -> (r: Vec<usize>)
        ensures
            r@ == self@.shuffle_order,
    {
        let r = window_indices(&self.shuffle_order, 0, self.shuffle_order.len());
        proof {
            assert(self@.shuffle_order.subrange(0, self@.shuffle_order.len() as int) =~= self@.shuffle_order);
        }
        r
    }

    /// The play history as track indices, oldest first.
    pub fn history_indices(&self) -> (r: Vec<usize>)
        ensures
            r@ == self@.history,
    {
        let r = window_indices(&self.history, 0, self.history.len());
        proof {
            assert(self@.history.subrange(0, self@.history.len() as int) =~= self@.history);
        }
        r
    }
}

/// Swap two entries of a permutation of `0..n`.
fn swap_entries(v: &mut Vec<usize>, i: usize, j: usize, n: usize)
    requires
        is_permutation(old(v)@, n as int),
        i < n,
        j < n,
    ensures
        final(v)@ == old(v)@.update(i as int, old(v)@[j as int]).update(j as int, old(v)@[i as int]),
        is_permutation(final(v)@, n as int),
{
    proof { crate::shuffle::lemma_swap_keeps_permutation(v@, n as int, i as int, j as int); }
    let a = v[i];
    let b = v[j];
    v.set(i, b);
    v.set(j, a);
}

/// The "stop after" marker is one-shot: once set on a queued track, finishing
/// that track fires it and clears it (it does not fire again), and finishing
/// any other track neither fires it nor changes the queue.
pub proof fn lemma_stop_after_fires_once(q: QueueView, id: u64)
    requires
        has_track_id(q.tracks, id),
    ensures
        with_stop_after(q, id).stop_after_track_id == Some(id),
        stop_fires(with_stop_after(q, id), id),
        after_finished(with_stop_after(q, id), id).stop_after_track_id is None,
        !stop_fires(after_finished(with_stop_after(q, id), id), id),
        forall|other: u64| other != id ==> !stop_fires(with_stop_after(q, id), other)
            && after_finished(with_stop_after(q, id), other) == with_stop_after(q, id),
{
}

/// Marking an id that no queued track has changes nothing.
pub proof fn lemma_stop_after_ignores_unknown(q: QueueView, id: u64)
    requires
        !has_track_id(q.tracks, id),
    ensures
        with_stop_after(q, id) == q,
{
}

/// A new marker replaces the previous one.
pub proof fn lemma_stop_after_replaces(q: QueueView, a: u64, b: u64)
    requires
        has_track_id(q.tracks, a),
        has_track_id(q.tracks, b),
    ensures
        with_stop_after(with_stop_after(q, a), b).stop_after_track_id == Some(b),
{
}

/// Clearing the queue drops the marker; removing a track drops it exactly
/// when it names the removed track.
pub proof fn lemma_structural_changes_invalidate_marker(q: QueueView, keep_current: bool, idx: usize)
    requires
        idx < q.tracks.len(),
    ensures
        cleared(q, keep_current).stop_after_track_id is None,
        removed_at(q, idx).stop_after_track_id == (if q.stop_after_track_id == Some(q.tracks[idx as int].id) {
            None
        } else {
            q.stop_after_track_id
        }),
{
}

/// Appending a track keeps the shuffle order a permutation of the track
/// indices.
pub proof fn lemma_append_keeps_shuffle_permutation(q: QueueView, t: QueueTrack)
    requires
        q.shuffle,
        is_permutation(q.shuffle_order, q.tracks.len() as int),
        q.tracks.len() < usize::MAX,
    ensures
        is_permutation(appended(q, t).shuffle_order, appended(q, t).tracks.len() as int),
{
}

/// Appending tracks keeps the shuffle order a permutation of the track
/// indices.
pub proof fn lemma_append_all_keeps_shuffle_permutation(q: QueueView, ts: Seq<QueueTrack>)
    requires
        q.shuffle,
        is_permutation(q.shuffle_order, q.tracks.len() as int),
        q.tracks.len() + ts.len() <= usize::MAX,
    ensures
        is_permutation(appended_all(q, ts).shuffle_order, appended_all(q, ts).tracks.len() as int),
{
    let o = appended_all(q, ts).shuffle_order;
    let n = q.tracks.len();
    assert forall|i: int, j: int| 0 <= i < j < o.len() implies o[i] != o[j] by {
        if j >= n && i < n {
            assert(o[i] < n);
        }
    }
}

/// Removing a track keeps the shuffle order a permutation of the remaining
/// track indices.
pub proof fn lemma_removal_keeps_shuffle_permutation(q: QueueView, idx: usize)
    requires
        q.shuffle,
        is_permutation(q.shuffle_order, q.tracks.len() as int),
        idx < q.tracks.len(),
        q.tracks.len() <= usize::MAX,
    ensures
        is_permutation(removed_at(q, idx).shuffle_order, removed_at(q, idx).tracks.len() as int),
{
    let order = q.shuffle_order;
    let n = q.tracks.len() as int;
    crate::shuffle::lemma_permutation_contains(order, n, idx);
    lemma_first_index_of(order, idx);
    let p = first_index_of(order, idx).unwrap();
    let r = order.remove(p);
    assert forall|i: int| 0 <= i < r.len() implies r[i] != idx && r[i] < n by {
        if i < p {
            assert(r[i] == order[i]);
        } else {
            assert(r[i] == order[i + 1]);
        }
    }
    assert forall|i: int, j: int| 0 <= i < j < r.len() implies r[i] != r[j] by {
        let a = if i < p { i } else { i + 1 };
        let b = if j < p { j } else { j + 1 };
        assert(r[i] == order[a]);
        assert(r[j] == order[b]);
    }
    let f = shift_down_above(r, idx);
    assert(order_after_removal(order, idx) == f);
    assert forall|i: int, j: int| 0 <= i < j < f.len() implies f[i] != f[j] by {
        assert(r[i] != r[j]);
    }
}

/// The play history never grows beyond `HISTORY_LIMIT` entries.
pub proof fn lemma_history_bounded(q: QueueView, index: usize)
    requires
        q.history.len() <= HISTORY_LIMIT,
    ensures
        played(q, index).history.len() <= HISTORY_LIMIT,
        history_after_play(q.history, q.current_index).len() <= HISTORY_LIMIT,
{
}

/// Moving an entry of a shuffle order to another position keeps it a
/// permutation of the same indices.
pub proof fn lemma_move_keeps_permutation(order: Seq<usize>, n: int, fp: int, tp: int)
    requires
        is_permutation(order, n),
        0 <= fp < order.len(),
        0 <= tp < order.len(),
    ensures
        is_permutation(order.remove(fp).insert(tp, order[fp]), n),
{
    let r = order.remove(fp);
    let m = r.insert(tp, order[fp]);
    assert forall|i: int| 0 <= i < r.len() implies r[i] != order[fp] && r[i] < n by {
        if i < fp {
            assert(r[i] == order[i]);
        } else {
            assert(r[i] == order[i + 1]);
        }
    }
    assert forall|i: int, j: int| 0 <= i < j < r.len() implies r[i] != r[j] by {
        let a = if i < fp { i } else { i + 1 };
        let b = if j < fp { j } else { j + 1 };
        assert(r[i] == order[a]);
        assert(r[j] == order[b]);
    }
    assert forall|i: int, j: int| 0 <= i < j < m.len() implies m[i] != m[j] by {
        let a = if i < tp { i } else { i - 1 };
        let b = if j < tp { j } else { j - 1 };
        if i == tp {
            assert(m[j] == r[b]);
        } else if j == tp {
            assert(m[i] == r[a]);
        } else {
            assert(m[i] == r[a]);
            assert(m[j] == r[b]);
        }
    }
    assert forall|i: int| 0 <= i < m.len() implies m[i] < n by {
        if i < tp {
            assert(m[i] == r[i]);
        } else if i > tp {
            assert(m[i] == r[i - 1]);
        }
    }
}

/// A track added with `add_track_next` while a track is current is the next
/// one to play: it sits right after the current track and, in shuffle mode,
/// right after the current position of the shuffle order.
pub proof fn lemma_added_next_plays_next(q: QueueView, t: QueueTrack)
    requires
        q.current_index matches Some(c) && c < q.tracks.len() && c + 1 <= usize::MAX,
        q.shuffle ==> q.shuffle_position < q.shuffle_order.len(),
    ensures
        ({
            let c = q.current_index.unwrap();
            let n = added_next(q, t);
            &&& n.tracks[c + 1] == t
            &&& next_index(n) == Some((c + 1) as usize)
        }),
{
    let c = q.current_index.unwrap();
    let n = added_next(q, t);
    if q.shuffle {
        let shifted = shift_up_from(q.shuffle_order, (c + 1) as usize);
        assert(shifted.len() == q.shuffle_order.len());
    }
}

/// What `last_index_with_id` finds.
proof fn lemma_last_index_with_id(tracks: Seq<QueueTrack>, id: u64)
    ensures
        last_index_with_id(tracks, id) matches Some(j) ==> 0 <= j < tracks.len() && tracks[j].id == id,
        last_index_with_id(tracks, id) is None ==> forall|j: int| 0 <= j < tracks.len() ==> tracks[j].id != id,
    decreases tracks.len(),
{
    if tracks.len() > 0 {
        lemma_last_index_with_id(tracks.drop_last(), id);
        assert forall|j: int| 0 <= j < tracks.len() - 1 implies tracks.drop_last()[j] == tracks[j] by {}
    }
}

/// Replacing the tracks keeps the play history on the same tracks: when
/// every history entry names a track whose id is among the new tracks, the
/// re-pointed history has one entry per old entry, each naming a new track
/// with the same id.
pub proof fn lemma_history_follows_tracks(history: Seq<usize>, old_tracks: Seq<QueueTrack>, new_tracks: Seq<QueueTrack>)
    requires
        new_tracks.len() <= usize::MAX,
        forall|i: int| 0 <= i < history.len() ==> #[trigger] history[i] < old_tracks.len()
            && has_track_id(new_tracks, old_tracks[history[i] as int].id),
    ensures
        remap_history(history, old_tracks, new_tracks).len() == history.len(),
        forall|i: int| 0 <= i < history.len() ==> {
            let j = #[trigger] remap_history(history, old_tracks, new_tracks)[i];
            j < new_tracks.len() && new_tracks[j as int].id == old_tracks[history[i] as int].id
        },
    decreases history.len(),
{
    if history.len() > 0 {
        let prev = history.drop_last();
        assert forall|i: int| 0 <= i < prev.len() implies #[trigger] prev[i] < old_tracks.len()
            && has_track_id(new_tracks, old_tracks[prev[i] as int].id) by {
            assert(prev[i] == history[i]);
        }
        lemma_history_follows_tracks(prev, old_tracks, new_tracks);
        let idx = history.last();
        assert(history[history.len() - 1] == idx);
        let id = old_tracks[idx as int].id;
        lemma_last_index_with_id(new_tracks, id);
        assert(last_index_with_id(new_tracks, id) is Some);
        let r = remap_history(history, old_tracks, new_tracks);
        let pr = remap_history(prev, old_tracks, new_tracks);
        let jl = last_index_with_id(new_tracks, id).unwrap();
        assert(r == pr.push(jl as usize));
        assert forall|i: int| 0 <= i < history.len() implies {
            let j = #[trigger] r[i];
            j < new_tracks.len() && new_tracks[j as int].id == old_tracks[history[i] as int].id
        } by {
            if i < history.len() - 1 {
                assert(r[i] == pr[i]);
                assert(history[i] == prev[i]);
            } else {
                assert(r[i] == jl as usize);
            }
        }
    }
}

/// History entries whose tracks are gone from the new tracks are dropped:
/// with none of them left, the re-pointed history is empty.
pub proof fn lemma_history_cleared_for_other_tracks(history: Seq<usize>, old_tracks: Seq<QueueTrack>, new_tracks: Seq<QueueTrack>)
    requires
        forall|i: int| 0 <= i < history.len() && #[trigger] history[i] < old_tracks.len()
            ==> !has_track_id(new_tracks, old_tracks[history[i] as int].id),
    ensures
        remap_history(history, old_tracks, new_tracks).len() == 0,
    decreases history.len(),
{
    if history.len() > 0 {
        let prev = history.drop_last();
        assert forall|i: int| 0 <= i < prev.len() && #[trigger] prev[i] < old_tracks.len()
            implies !has_track_id(new_tracks, old_tracks[prev[i] as int].id) by {
            assert(prev[i] == history[i]);
        }
        lemma_history_cleared_for_other_tracks(prev, old_tracks, new_tracks);
        let idx = history.last();
        assert(history[history.len() - 1] == idx);
        if idx < old_tracks.len() {
            lemma_last_index_with_id(new_tracks, old_tracks[idx as int].id);
            if last_index_with_id(new_tracks, old_tracks[idx as int].id) is Some {
                let j = last_index_with_id(new_tracks, old_tracks[idx as int].id).unwrap();
                assert(new_tracks[j].id == old_tracks[idx as int].id);
            }
        }
    }
}


proof fn lemma_tracks_of_valid(tracks: Seq<QueueTrack>, indices: Seq<usize>)
    requires
        forall|i: int| 0 <= i < indices.len() ==> indices[i] < tracks.len(),
    ensures
        tracks_of(tracks, indices).len() == indices.len(),
        forall|k: int| 0 <= k < indices.len() ==> tracks_of(tracks, indices)[k] == tracks[indices[k] as int],
    decreases indices.len(),
{
    if indices.len() > 0 {
        lemma_tracks_of_valid(tracks, indices.drop_last());
    }
}

/// Clicking position `k` of the upcoming list that a snapshot shows plays
/// the very track shown there, in shuffle mode too (where the list follows
/// the shuffle order, not the queue order), in every queue whose shuffle
/// order is valid, which `new` and the queue's operations keep.
pub proof fn lemma_upcoming_click_plays_shown_track(q: QueueView, k: usize)
    requires
        q.tracks.len() <= usize::MAX,
        shuffle_indices_valid(q),
        k < snapshot_upcoming(q).len(),
    ensures
        jump_target(q, k) matches Some(idx) && idx < q.tracks.len()
            && q.tracks[idx as int] == snapshot_upcoming(q)[k as int]
            && track_at(played(q, idx).tracks, played(q, idx).current_index) == Some(snapshot_upcoming(q)[k as int]),
{
    match q.current_index {
        Some(c) => {
            if q.shuffle {
                let start = q.shuffle_position + 1;
                let w = window(q.shuffle_order, start, UPCOMING_LIMIT as int);
                assert forall|i: int| 0 <= i < w.len() implies w[i] < q.tracks.len() by {
                    assert(w[i] == q.shuffle_order[start + i]);
                }
                lemma_tracks_of_valid(q.tracks, w);
                assert(w[k as int] == q.shuffle_order[start + k]);
            }
        },
        None => {},
    }
}


/// Removing a track other than the current one keeps the same track
/// playing: its index moves down by one when the removed track came before
/// it, and stays otherwise.
/// In shuffle mode the shuffle position then names the current track again
/// wherever the new shuffle order holds it.
pub proof fn lemma_removal_keeps_current_track(q: QueueView, idx: usize)
    requires
        idx < q.tracks.len(),
        q.shuffle_order.len() <= usize::MAX,
    ensures
        q.current_index matches Some(c) ==> (c < q.tracks.len() && idx != c
            ==> track_at(removed_at(q, idx).tracks, removed_at(q, idx).current_index) == Some(q.tracks[c as int])),
        removed_at(q, idx).current_index matches Some(c) ==> (q.shuffle && removed_at(q, idx).shuffle_order.contains(c)
            ==> removed_at(q, idx).shuffle_position < removed_at(q, idx).shuffle_order.len()
                && removed_at(q, idx).shuffle_order[removed_at(q, idx).shuffle_position as int] == c),
{
    let n = removed_at(q, idx);
    if q.shuffle {
        lemma_order_after_removal_len(q.shuffle_order, idx);
        if let Some(c) = n.current_index {
            lemma_first_index_of(n.shuffle_order, c);
        }
    }
}

/// Removing a track takes at most one entry out of the shuffle order.
proof fn lemma_order_after_removal_len(order: Seq<usize>, idx: usize)
    ensures
        order_after_removal(order, idx).len() <= order.len(),
{
    lemma_first_index_of(order, idx);
}

/// A jump to a track that the shuffle order holds leaves the shuffle
/// position on that track, so play goes on in shuffle order from there.
pub proof fn lemma_jump_points_position_at_track(q: QueueView, index: usize)
    requires
        q.shuffle,
        q.shuffle_order.contains(index),
        q.shuffle_order.len() <= usize::MAX,
    ensures
        played(q, index).current_index == Some(index),
        played(q, index).shuffle_position < q.shuffle_order.len(),
        q.shuffle_order[played(q, index).shuffle_position as int] == index,
{
    lemma_first_index_of(q.shuffle_order, index);
}

/// In a valid shuffle order, after a jump to the track at position `p` of
/// the order, the next track is the one at position `p + 1`.
pub proof fn lemma_jump_then_next_follows_order(q: QueueView, p: int)
    requires
        q.shuffle,
        valid_order(q.shuffle_order, q.tracks.len() as int),
        q.shuffle_order.len() <= usize::MAX,
        0 <= p,
        p + 1 < q.shuffle_order.len(),
    ensures
        next_index(played(q, q.shuffle_order[p])) == Some(q.shuffle_order[p + 1]),
{
    let index = q.shuffle_order[p];
    assert(q.shuffle_order.contains(index));
    lemma_jump_points_position_at_track(q, index);
    let pos = played(q, index).shuffle_position as int;
    assert(pos == p) by {
        if pos != p {
            if pos < p {
                assert(q.shuffle_order[pos] != q.shuffle_order[p]);
            } else {
                assert(q.shuffle_order[p] != q.shuffle_order[pos]);
            }
        }
    }
}

/// In shuffle mode the next track is the entry after the current position
/// of the shuffle order, whatever the current index is.
pub proof fn lemma_next_follows_shuffle_order(q: QueueView)
    requires
        q.shuffle,
        q.shuffle_position + 1 < q.shuffle_order.len(),
    ensures
        next_index(q) == Some(q.shuffle_order[q.shuffle_position + 1]),
{
}

/// Without shuffle the next track is the one after the current track in
/// queue order.
pub proof fn lemma_next_follows_queue_order(q: QueueView, c: usize)
    requires
        !q.shuffle,
        q.current_index == Some(c),
        c + 1 < q.tracks.len(),
    ensures
        next_index(q) == Some((c + 1) as usize),
{
}

/// Adding a track keeps the shuffle order as it was and puts the new index
/// last, so the shuffle position still names the current track and the
/// track that plays next stays the same; at the end of the order, without
/// repeat, the added track plays next.
pub proof fn lemma_append_keeps_play_order(q: QueueView, t: QueueTrack)
    requires
        q.shuffle,
        q.tracks.len() <= usize::MAX,
    ensures
        appended(q, t).shuffle_order.len() == q.shuffle_order.len() + 1,
        appended(q, t).shuffle_order.subrange(0, q.shuffle_order.len() as int) == q.shuffle_order,
        appended(q, t).shuffle_order.last() == q.tracks.len(),
        appended(q, t).shuffle_position == q.shuffle_position,
        appended(q, t).current_index == q.current_index,
        q.shuffle_position < q.shuffle_order.len()
            ==> appended(q, t).shuffle_order[q.shuffle_position as int] == q.shuffle_order[q.shuffle_position as int],
        q.shuffle_position + 1 < q.shuffle_order.len() ==> next_index(appended(q, t)) == next_index(q),
        q.shuffle_position + 1 == q.shuffle_order.len()
            ==> next_index(appended(q, t)) == Some(q.tracks.len() as usize),
{
    assert(appended(q, t).shuffle_order.subrange(0, q.shuffle_order.len() as int) =~= q.shuffle_order);
}

/// Without repeat, the upcoming list of `count` slots is the next `count`
/// tracks in play order: in shuffle mode the tracks that the shuffle order
/// names after the current position, otherwise the tracks after the current
/// one in queue order (from the first track when there is no current one).
pub proof fn lemma_peek_lists_following_tracks(q: QueueView, count: nat)
    requires
        q.repeat == RepeatMode::Off,
    ensures
        peek_slots(q, count) == (if q.shuffle {
            tracks_of(q.tracks, window(q.shuffle_order, q.shuffle_position + 1, count as int))
        } else {
            match q.current_index {
                Some(c) => window(q.tracks, c + 1, count as int),
                None => window(q.tracks, 0, count as int),
            }
        }),
    decreases count,
{
    if count > 0 {
        let n = (count - 1) as nat;
        lemma_peek_lists_following_tracks(q, n);
        if q.shuffle {
            let w = window(q.shuffle_order, q.shuffle_position + 1, count as int);
            let w0 = window(q.shuffle_order, q.shuffle_position + 1, n as int);
            if q.shuffle_position + 1 + n < q.shuffle_order.len() {
                assert(w.drop_last() =~= w0);
                assert(w.last() == q.shuffle_order[q.shuffle_position + 1 + n]);
            } else {
                assert(w =~= w0);
            }
        } else {
            let start: int = match q.current_index {
                Some(c) => c + 1,
                None => 0,
            };
            let w = window(q.tracks, start, count as int);
            let w0 = window(q.tracks, start, n as int);
            if start + n < q.tracks.len() {
                assert(w =~= w0.push(q.tracks[start + n]));
            } else {
                assert(w =~= w0);
            }
        }
    }
}

/// Without shuffle or repeat, the upcoming list starts with the track that
/// `next` plays, the one after the current track, and never lists the
/// current track's position.
pub proof fn lemma_peek_starts_with_next(q: QueueView, count: nat, c: usize)
    requires
        !q.shuffle,
        q.repeat == RepeatMode::Off,
        q.current_index == Some(c),
        c < q.tracks.len(),
        q.tracks.len() <= usize::MAX,
    ensures
        peek_slots(q, count) == q.tracks.subrange(c + 1, if c + 1 + count < q.tracks.len() {
            c + 1 + count
        } else {
            q.tracks.len() as int
        }),
        count > 0 && c + 1 < q.tracks.len() ==> peek_slots(q, count).len() > 0
            && Some(peek_slots(q, count)[0]) == track_at(q.tracks, next_index(q)),
{
    lemma_peek_lists_following_tracks(q, count);
    if count > 0 && c + 1 < q.tracks.len() {
        assert(peek_slots(q, count)[0] == q.tracks[c + 1]);
        assert(next_index(q) == Some((c + 1) as usize));
    }
}

/// With no queued tracks, indices name no track.
proof fn lemma_tracks_of_none_in_range(tracks: Seq<QueueTrack>, indices: Seq<usize>)
    requires
        tracks.len() == 0,
    ensures
        tracks_of(tracks, indices) == Seq::<QueueTrack>::empty(),
    decreases indices.len(),
{
    if indices.len() > 0 {
        lemma_tracks_of_none_in_range(tracks, indices.drop_last());
        assert(tracks_of(tracks, indices) =~= Seq::<QueueTrack>::empty());
    }
}

/// Without repeat, with a current track, the upcoming preview of
/// `UPCOMING_LIMIT` tracks is the upcoming list that a snapshot shows.
pub proof fn lemma_peek_matches_snapshot(q: QueueView)
    requires
        q.repeat == RepeatMode::Off,
        q.current_index is Some,
    ensures
        peek_slots(q, UPCOMING_LIMIT as nat) == snapshot_upcoming(q),
{
    lemma_peek_lists_following_tracks(q, UPCOMING_LIMIT as nat);
}

/// Removing position `k` of the upcoming list that a snapshot shows removes
/// the very track shown there (with a current track, or off shuffle), and
/// never the current track while the shuffle position names it.
pub proof fn lemma_upcoming_removal_takes_shown_track(q: QueueView, k: usize)
    requires
        q.tracks.len() <= usize::MAX,
        shuffle_indices_valid(q),
        q.current_index is Some || !q.shuffle,
        k < snapshot_upcoming(q).len(),
    ensures
        upcoming_target(q, k) is Some,
        upcoming_target(q, k).unwrap() < q.tracks.len(),
        q.tracks[upcoming_target(q, k).unwrap() as int] == snapshot_upcoming(q)[k as int],
        q.current_index is Some && (q.shuffle ==> q.shuffle_position < q.shuffle_order.len()
            && q.shuffle_order[q.shuffle_position as int] == q.current_index.unwrap())
            ==> upcoming_target(q, k) != q.current_index,
{
    lemma_upcoming_click_plays_shown_track(q, k);
    assert(upcoming_target(q, k) == jump_target(q, k));
    if q.shuffle && q.current_index is Some && q.shuffle_position < q.shuffle_order.len() {
        let p = q.shuffle_position as int;
        assert(q.shuffle_order[p] != q.shuffle_order[p + 1 + k]);
    }
}

/// When shuffle is set from an optional authoritative order, a valid one is
/// taken as it is (the queue order otherwise), and the shuffle position
/// names the current track whenever that track is in the queue.
pub proof fn lemma_authoritative_position_names_current(order: Option<Seq<usize>>, len: int, current: Option<usize>)
    requires
        0 <= len <= usize::MAX,
    ensures
        order matches Some(o) ==> (is_permutation(o, len) ==> authoritative_order(order, len) == o),
        authoritative_order(order, len).len() == len,
        current matches Some(c) ==> (c < len ==> authoritative_position(order, len, current) < len
            && authoritative_order(order, len)[authoritative_position(order, len, current) as int] == c),
{
    if let Some(c) = current {
        if c < len {
            if let Some(o) = order {
                if is_permutation(o, len) {
                    crate::shuffle::lemma_permutation_contains(o, len, c);
                    lemma_first_index_of(o, c);
                }
            }
        }
    }
}

/// The ids of the tracks that `indices` name, skipping indices out of range.
pub open spec fn ids_at(tracks: Seq<QueueTrack>, indices: Seq<usize>) -> Seq<u64>
    decreases indices.len(),
{
    if indices.len() == 0 {
        Seq::empty()
    } else {
        let prev = ids_at(tracks, indices.drop_last());
        if indices.last() < tracks.len() {
            prev.push(tracks[indices.last() as int].id)
        } else {
            prev
        }
    }
}

/// Whether a track of `tracks` has the id, as a predicate.
pub open spec fn id_in(tracks: Seq<QueueTrack>) -> spec_fn(u64) -> bool {
    |id: u64| has_track_id(tracks, id)
}

/// Replacing the tracks keeps the play history of the tracks that remain:
/// the ids the re-pointed history names are the ids the old history named,
/// in the same order, less those absent from the new tracks.
pub proof fn lemma_history_ids_filtered(history: Seq<usize>, old_tracks: Seq<QueueTrack>, new_tracks: Seq<QueueTrack>)
    requires
        new_tracks.len() <= usize::MAX,
    ensures
        ids_at(new_tracks, remap_history(history, old_tracks, new_tracks))
            == ids_at(old_tracks, history).filter(id_in(new_tracks)),
    decreases history.len(),
{
    reveal(Seq::filter);
    if history.len() > 0 {
        let prev = history.drop_last();
        lemma_history_ids_filtered(prev, old_tracks, new_tracks);
        let idx = history.last();
        let ids = ids_at(old_tracks, history);
        let rp = remap_history(prev, old_tracks, new_tracks);
        if idx < old_tracks.len() {
            let id = old_tracks[idx as int].id;
            lemma_last_index_with_id(new_tracks, id);
            assert(ids.drop_last() =~= ids_at(old_tracks, prev));
            assert(ids.last() == id);
            match last_index_with_id(new_tracks, id) {
                Some(j) => {
                    assert(id_in(new_tracks)(id));
                    let r = rp.push(j as usize);
                    assert(r.drop_last() =~= rp);
                    assert(ids_at(new_tracks, r) == ids_at(new_tracks, rp).push(id));
                },
                None => {
                    assert(!id_in(new_tracks)(id));
                },
            }
        } else {
            assert(ids == ids_at(old_tracks, prev));
        }
    }
}

/// With all history entries in range, the history a snapshot shows is the
/// last `HISTORY_SNAPSHOT_LIMIT` played tracks, cleared-out ones included,
/// most recent first.
pub proof fn lemma_snapshot_history_is_recent_played(q: QueueView)
    requires
        forall|i: int| 0 <= i < q.history.len() ==> q.history[i] < q.tracks.len(),
    ensures
        snapshot_history(q) == window((q.past + tracks_of(q.tracks, q.history)).reverse(), 0, HISTORY_SNAPSHOT_LIMIT as int),
{
    let h = q.history;
    let lim = HISTORY_SNAPSHOT_LIMIT as int;
    let recent = window(h.reverse(), 0, lim);
    assert forall|i: int| 0 <= i < recent.len() implies recent[i] < q.tracks.len() by {
        assert(recent[i] == h[h.len() - 1 - i]);
    }
    lemma_tracks_of_valid(q.tracks, recent);
    lemma_tracks_of_valid(q.tracks, h);
    let played = tracks_of(q.tracks, h);
    let all = (q.past + played).reverse();
    assert(all =~= played.reverse() + q.past.reverse());
    assert(snapshot_history(q) =~= window(all, 0, lim));
}

/// `clear` with `keep_current` keeps the current track as the only one, at
/// index 0; either way the play history moves to the cleared-out records,
/// so that a snapshot shows the same played tracks as before (while there
/// are no more than `HISTORY_LIMIT` of them).
pub proof fn lemma_clear_keeps_current_and_history(q: QueueView, keep_current: bool)
    requires
        forall|i: int| 0 <= i < q.history.len() ==> q.history[i] < q.tracks.len(),
        q.past.len() + q.history.len() <= HISTORY_LIMIT,
    ensures
        keep_current && (q.current_index matches Some(c) && c < q.tracks.len()) ==> (
            cleared(q, keep_current).tracks == seq![q.tracks[q.current_index.unwrap() as int]]
            && cleared(q, keep_current).current_index == Some(0usize)),
        snapshot_history(cleared(q, keep_current)) == snapshot_history(q),
{
    lemma_snapshot_history_is_recent_played(q);
    let n = cleared(q, keep_current);
    lemma_tracks_of_valid(q.tracks, q.history);
    assert(n.history.len() == 0);
    lemma_snapshot_history_is_recent_played(n);
    assert(tracks_of(n.tracks, n.history) =~= Seq::<QueueTrack>::empty());
    assert(n.past + tracks_of(n.tracks, n.history) =~= n.past);
    assert(n.past =~= q.past + tracks_of(q.tracks, q.history));
    match q.current_index {
        Some(c) => {
            if keep_current && c < q.tracks.len() {
                assert(n.tracks =~= seq![q.tracks[c as int]]);
            }
        },
        None => {},
    }
}

/// In shuffle mode, moving an upcoming entry reorders the upcoming part of
/// the play order only (remove at `from`, insert at `to`); the played part,
/// the current track and its position, the tracks, the history and the
/// marker stay.
pub proof fn lemma_shuffle_move_reorders_upcoming(o: QueueView, c: usize, from: usize, to: usize)
    requires
        o.shuffle,
        o.current_index == Some(c),
        shuffle_indices_valid(o),
        o.shuffle_position < o.shuffle_order.len(),
        o.shuffle_order[o.shuffle_position as int] == c,
        o.shuffle_position + 1 + from < o.shuffle_order.len(),
        o.shuffle_position + 1 + to < o.shuffle_order.len(),
    ensures
        ({
            let (n, r) = track_moved(o, from, to);
            let base = o.shuffle_position + 1;
            let len = o.shuffle_order.len() as int;
            let up = o.shuffle_order.subrange(base, len);
            &&& r
            &&& n.tracks == o.tracks
            &&& n.current_index == o.current_index
            &&& n.shuffle_position == o.shuffle_position
            &&& n.history == o.history
            &&& n.stop_after_track_id == o.stop_after_track_id
            &&& n.shuffle_order.subrange(0, base) == o.shuffle_order.subrange(0, base)
            &&& n.shuffle_order.subrange(base, len) == up.remove(from as int).insert(to as int, up[from as int])
        }),
{
    let base = o.shuffle_position + 1;
    let len = o.shuffle_order.len() as int;
    let up = o.shuffle_order.subrange(base, len);
    let fp = base + from;
    let tp = base + to;
    let s = o.shuffle_order;
    if fp == tp {
        assert(up.remove(from as int).insert(to as int, up[from as int]) =~= up);
    } else {
        let order = s.remove(fp).insert(tp, s[fp]);
        assert(order.len() == len);
        assert forall|j: int| 0 <= j < base implies order[j] == s[j] by {}
        lemma_first_index_of(order, c);
        assert(order[o.shuffle_position as int] == c);
        assert forall|j: int| 0 <= j < o.shuffle_position implies order[j] != c by {
            assert(s[j] != s[o.shuffle_position as int]);
        }
        assert(first_index_of(order, c) == Some(o.shuffle_position as int));
        assert(order.subrange(0, base) =~= s.subrange(0, base));
        assert(order.subrange(base, len) =~= up.remove(from as int).insert(to as int, up[from as int]));
    }
}

/// Off shuffle, moving an upcoming track keeps the same tracks (only their
/// order changes), keeps the current track current and keeps the marker;
/// a refused move changes nothing.
pub proof fn lemma_plain_move_keeps_tracks(o: QueueView, from: usize, to: usize)
    requires
        !o.shuffle,
        o.tracks.len() <= usize::MAX,
        o.current_index matches Some(c) ==> c < o.tracks.len(),
        o.current_index is None ==> !(from == 0 && to == 0),
    ensures
        ({
            let (n, r) = track_moved(o, from, to);
            &&& n.tracks.to_multiset() == o.tracks.to_multiset()
            &&& n.stop_after_track_id == o.stop_after_track_id
            &&& (o.current_index matches Some(c) ==> (n.current_index matches Some(c2)
                && c2 < n.tracks.len() && n.tracks[c2 as int] == o.tracks[c as int]))
            &&& (!r ==> n == o)
        }),
{
    broadcast use vstd::seq_lib::group_to_multiset_ensures;
    let (n, r) = track_moved(o, from, to);
    let fi: int = match o.current_index {
        Some(c) => from + c + 1,
        None => from as int,
    };
    let ti0: int = match o.current_index {
        Some(c) => to + c + 1,
        None => to as int,
    };
    let ti: int = if from <= to { ti0 - 1 } else { ti0 };
    if fi != ti && fi < o.tracks.len() && ti < o.tracks.len() {
        let x = o.tracks[fi];
        let rem = o.tracks.remove(fi);
        let ins = rem.insert(ti, x);
        o.tracks.remove_ensures(fi);
        rem.insert_ensures(ti, x);
        ins.remove_ensures(ti);
        assert(ins.remove(ti) =~= rem);
        assert(ins[ti] == x);
        assert(ins.to_multiset() =~= rem.to_multiset().insert(x)) by {
            assert(ins.remove(ti).to_multiset() =~= ins.to_multiset().remove(x));
            assert(ins.to_multiset().count(x) > 0) by {
                assert(ins.contains(x));
            }
        }
        assert(o.tracks.to_multiset() =~= rem.to_multiset().insert(x)) by {
            assert(o.tracks.to_multiset().count(x) > 0) by {
                assert(o.tracks.contains(x));
            }
        }
        match o.current_index {
            Some(cu) => {
                let c = cu as int;
                assert(n.tracks == ins);
                let c2: int = if fi == c {
                    ti
                } else if fi < c && ti >= c {
                    c - 1
                } else if fi > c && ti <= c {
                    c + 1
                } else {
                    c
                };
                assert(n.current_index == Some(c2 as usize));
                if fi == c {
                    assert(ins[ti] == o.tracks[c]);
                } else if fi < c && ti >= c {
                    assert(rem[c - 1] == o.tracks[c]);
                    assert(ins[c - 1] == rem[c - 1]);
                } else if fi > c && ti <= c {
                    assert(rem[c] == o.tracks[c]);
                    assert(ins[c + 1] == rem[c]);
                } else if fi < c {
                    assert(rem[c - 1] == o.tracks[c]);
                    assert(ins[c] == rem[c - 1]);
                } else {
                    assert(rem[c] == o.tracks[c]);
                    assert(ins[c] == rem[c]);
                }
                assert(0 <= c2 < ins.len());
                assert(ins[c2] == o.tracks[c]);
                assert((c2 as usize) as int == c2);
            },
            None => {},
        }
    }
}


proof fn lemma_permutation_is_valid(order: Seq<usize>, n: int)
    requires
        is_permutation(order, n),
    ensures
        valid_order(order, n),
{
}

proof fn lemma_authoritative_valid(order: Option<Seq<usize>>, len: int)
    requires
        0 <= len <= usize::MAX,
    ensures
        valid_order(authoritative_order(order, len), len),
{
    crate::shuffle::lemma_identity_is_permutation(len);
}

proof fn lemma_valid_after_removal(order: Seq<usize>, n: int, idx: usize)
    requires
        valid_order(order, n),
        idx < n,
    ensures
        valid_order(order_after_removal(order, idx), n - 1),
{
    lemma_first_index_of(order, idx);
    let r = match first_index_of(order, idx) {
        Some(p) => order.remove(p),
        None => order,
    };
    match first_index_of(order, idx) {
        Some(p) => {
            assert forall|i: int| 0 <= i < r.len() implies r[i] != idx && r[i] < n by {
                if i < p {
                    assert(r[i] == order[i]);
                } else {
                    assert(r[i] == order[i + 1]);
                    assert(order[i + 1] != order[p]);
                }
            }
            assert forall|i: int, j: int| 0 <= i < j < r.len() implies r[i] != r[j] by {
                let a = if i < p { i } else { i + 1 };
                let b = if j < p { j } else { j + 1 };
                assert(r[i] == order[a]);
                assert(r[j] == order[b]);
            }
        },
        None => {},
    }
    let f = shift_down_above(r, idx);
    assert(order_after_removal(order, idx) == f);
    assert forall|i: int, j: int| 0 <= i < j < f.len() implies f[i] != f[j] by {
        assert(r[i] != r[j]);
    }
}

proof fn lemma_removed_at_valid(q: QueueView, idx: usize)
    requires
        shuffle_indices_valid(q),
        idx < q.tracks.len(),
    ensures
        shuffle_indices_valid(removed_at(q, idx)),
{
    if q.shuffle {
        lemma_valid_after_removal(q.shuffle_order, q.tracks.len() as int, idx);
    }
}

proof fn lemma_keep_below_valid(s: Seq<usize>, n: int, cutoff: usize)
    requires
        valid_order(s, n),
    ensures
        valid_order(keep_below(s, cutoff), cutoff as int),
        forall|x: usize| keep_below(s, cutoff).contains(x) ==> s.contains(x),
    decreases s.len(),
{
    if s.len() > 0 {
        let prev = s.drop_last();
        assert(valid_order(prev, n)) by {
            assert forall|i: int, j: int| 0 <= i < j < prev.len() implies prev[i] != prev[j] by {
                assert(prev[i] == s[i] && prev[j] == s[j]);
            }
        }
        lemma_keep_below_valid(prev, n, cutoff);
        let kp = keep_below(prev, cutoff);
        assert forall|x: usize| kp.contains(x) implies s.contains(x) by {
            assert(prev.contains(x));
            let k = choose|k: int| 0 <= k < prev.len() && prev[k] == x;
            assert(s[k] == x);
        }
        if s.last() < cutoff {
            assert(!kp.contains(s.last())) by {
                if kp.contains(s.last()) {
                    assert(prev.contains(s.last()));
                    let k = choose|k: int| 0 <= k < prev.len() && prev[k] == s.last();
                    assert(s[k] == s[s.len() - 1]);
                }
            }
            let r = kp.push(s.last());
            assert forall|i: int, j: int| 0 <= i < j < r.len() implies r[i] != r[j] by {
                if j == r.len() - 1 {
                    assert(kp.contains(r[i]));
                }
            }
            assert forall|x: usize| r.contains(x) implies s.contains(x) by {
                if x != s.last() {
                    let k = choose|k: int| 0 <= k < r.len() && r[k] == x;
                    assert(kp.contains(x));
                } else {
                    assert(s[s.len() - 1] == x);
                }
            }
        }
    }
}

proof fn lemma_track_moved_valid(o: QueueView, from: usize, to: usize)
    requires
        shuffle_indices_valid(o),
    ensures
        shuffle_indices_valid(track_moved(o, from, to).0),
{
    if o.shuffle {
        let base: int = if o.current_index is Some { o.shuffle_position + 1 } else { 0 };
        let fp = base + from;
        let tp = base + to;
        let s = o.shuffle_order;
        if fp < s.len() && tp < s.len() && fp != tp {
            let x = s[fp];
            let r = s.remove(fp);
            s.remove_ensures(fp);
            assert forall|i: int| 0 <= i < r.len() implies r[i] != x && r[i] < o.tracks.len() by {
                if i < fp {
                    assert(r[i] == s[i]);
                } else {
                    assert(r[i] == s[i + 1]);
                }
            }
            assert forall|i: int, j: int| 0 <= i < j < r.len() implies r[i] != r[j] by {
                let a = if i < fp { i } else { i + 1 };
                let b = if j < fp { j } else { j + 1 };
                assert(r[i] == s[a]);
                assert(r[j] == s[b]);
            }
            let t = r.insert(tp, x);
            r.insert_ensures(tp, x);
            assert forall|i: int| 0 <= i < t.len() implies t[i] < o.tracks.len() by {
                if i < tp {
                    assert(t[i] == r[i]);
                } else if i > tp {
                    assert(t[i] == r[i - 1]);
                }
            }
            assert forall|i: int, j: int| 0 <= i < j < t.len() implies t[i] != t[j] by {
                let a = if i < tp { i } else { i - 1 };
                let b = if j < tp { j } else { j - 1 };
                if i == tp {
                    assert(t[j] == r[b]);
                } else if j == tp {
                    assert(t[i] == r[a]);
                } else {
                    assert(t[i] == r[a]);
                    assert(t[j] == r[b]);
                }
            }
        }
    }
}


/// In shuffle mode, when the upcoming list shows the whole rest of the play
/// order, moving an upcoming entry moves the shown track from position
/// `from` to position `to` of the list; the current track and the tracks
/// stay.
pub proof fn lemma_shuffle_move_reorders_shown_upcoming(o: QueueView, c: usize, from: usize, to: usize)
    requires
        o.shuffle,
        o.current_index == Some(c),
        shuffle_indices_valid(o),
        o.shuffle_position < o.shuffle_order.len(),
        o.shuffle_order[o.shuffle_position as int] == c,
        o.shuffle_order.len() - (o.shuffle_position + 1) <= UPCOMING_LIMIT,
        o.shuffle_position + 1 + from < o.shuffle_order.len(),
        o.shuffle_position + 1 + to < o.shuffle_order.len(),
    ensures
        ({
            let (n, r) = track_moved(o, from, to);
            let u = snapshot_upcoming(o);
            &&& r
            &&& snapshot_upcoming(n) == u.remove(from as int).insert(to as int, u[from as int])
            &&& track_at(n.tracks, n.current_index) == track_at(o.tracks, o.current_index)
            &&& n.tracks == o.tracks
        }),
{
    lemma_shuffle_move_reorders_upcoming(o, c, from, to);
    let (n, r) = track_moved(o, from, to);
    let base = o.shuffle_position + 1;
    let len = o.shuffle_order.len() as int;
    let up = o.shuffle_order.subrange(base, len);
    let moved = up.remove(from as int).insert(to as int, up[from as int]);
    assert(window(o.shuffle_order, base, UPCOMING_LIMIT as int) =~= up);
    assert(window(n.shuffle_order, base, UPCOMING_LIMIT as int) =~= moved);
    assert forall|i: int| 0 <= i < up.len() implies up[i] < o.tracks.len() by {
        assert(up[i] == o.shuffle_order[base + i]);
    }
    up.remove_ensures(from as int);
    up.remove(from as int).insert_ensures(to as int, up[from as int]);
    assert forall|i: int| 0 <= i < moved.len() implies moved[i] < o.tracks.len() by {
        assert(moved[i] == n.shuffle_order[base + i]);
    }
    lemma_tracks_of_valid(o.tracks, up);
    lemma_tracks_of_valid(o.tracks, moved);
    let u = tracks_of(o.tracks, up);
    u.remove_ensures(from as int);
    u.remove(from as int).insert_ensures(to as int, u[from as int]);
    assert(tracks_of(o.tracks, moved) =~= u.remove(from as int).insert(to as int, u[from as int]));
}


proof fn lemma_ids_at_concat(tracks: Seq<QueueTrack>, a: Seq<usize>, b: Seq<usize>)
    ensures
        ids_at(tracks, a + b) == ids_at(tracks, a) + ids_at(tracks, b),
    decreases b.len(),
{
    if b.len() == 0 {
        assert(a + b =~= a);
        assert(ids_at(tracks, a) + ids_at(tracks, b) =~= ids_at(tracks, a));
    } else {
        lemma_ids_at_concat(tracks, a, b.drop_last());
        assert((a + b).drop_last() =~= a + b.drop_last());
        assert((a + b).last() == b.last());
        if b.last() < tracks.len() {
            assert(ids_at(tracks, a) + ids_at(tracks, b) =~= (ids_at(tracks, a) + ids_at(tracks, b.drop_last())).push(
                tracks[b.last() as int].id,
            ));
        }
    }
}

proof fn lemma_records_ids_filtered(past: Seq<QueueTrack>, new_tracks: Seq<QueueTrack>)
    requires
        new_tracks.len() <= usize::MAX,
    ensures
        ids_at(new_tracks, remap_records(past, new_tracks))
            == past.map_values(|t: QueueTrack| t.id).filter(id_in(new_tracks)),
    decreases past.len(),
{
    reveal(Seq::filter);
    if past.len() > 0 {
        let prev = past.drop_last();
        lemma_records_ids_filtered(prev, new_tracks);
        let ids = past.map_values(|t: QueueTrack| t.id);
        assert(ids.drop_last() =~= prev.map_values(|t: QueueTrack| t.id));
        let id = past.last().id;
        assert(ids.last() == id);
        lemma_last_index_with_id(new_tracks, id);
        let rp = remap_records(prev, new_tracks);
        match last_index_with_id(new_tracks, id) {
            Some(j) => {
                assert(id_in(new_tracks)(id));
                let r = rp.push(j as usize);
                assert(r.drop_last() =~= rp);
                assert(ids_at(new_tracks, r) == ids_at(new_tracks, rp).push(id));
            },
            None => {
                assert(!id_in(new_tracks)(id));
            },
        }
    }
}

/// Replacing the tracks (`set_queue`, `set_queue_with_order`) keeps the play
/// history of the tracks that remain: the ids the new history names are the
/// ids of the old one (cleared-out records, then history entries), in the
/// same order, less those absent from the new tracks (before the history is
/// kept to its last `HISTORY_LIMIT` entries).
pub proof fn lemma_replaced_history_ids_filtered(q: QueueView, new_tracks: Seq<QueueTrack>)
    requires
        new_tracks.len() <= usize::MAX,
    ensures
        ids_at(new_tracks, remap_records(q.past, new_tracks) + remap_history(q.history, q.tracks, new_tracks))
            == (q.past.map_values(|t: QueueTrack| t.id) + ids_at(q.tracks, q.history)).filter(id_in(new_tracks)),
{
    lemma_ids_at_concat(
        new_tracks,
        remap_records(q.past, new_tracks),
        remap_history(q.history, q.tracks, new_tracks),
    );
    lemma_records_ids_filtered(q.past, new_tracks);
    lemma_history_ids_filtered(q.history, q.tracks, new_tracks);
    Seq::filter_distributes_over_add(
        q.past.map_values(|t: QueueTrack| t.id),
        ids_at(q.tracks, q.history),
        id_in(new_tracks),
    );
}

} // verus!
