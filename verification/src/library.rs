//! Records of the local library and of the local playlist settings.

use vstd::prelude::*;
use crate::text::str_eq;

verus! {

/// A track of an album whose title and numbering are being edited.
#[derive(Debug, Clone)]
pub struct AlbumTrackUpdate {
    pub id: i64,
    pub title: String,
    pub disc_number: Option<u32>,
    pub track_number: Option<u32>,
}

/// All editable metadata of one track.
#[derive(Debug, Clone)]
pub struct TrackMetadataUpdateFull {
    pub id: i64,
    pub title: String,
    pub artist: String,
    pub album: String,
    pub album_artist: Option<String>,
    pub album_group_title: String,
    pub track_number: Option<u32>,
    pub disc_number: Option<u32>,
    pub year: Option<u32>,
    pub genre: Option<String>,
    pub catalog_number: Option<String>,
}

/// Library statistics.
#[derive(Debug, Clone)]
pub struct LibraryStats {
    pub track_count: u32,
    pub album_count: u32,
    pub artist_count: u32,
    pub total_duration_secs: u64,
    pub total_size_bytes: u64,
}

/// A library folder with its metadata.
#[derive(Debug, Clone)]
pub struct LibraryFolder {
    pub id: i64,
    pub path: String,
    pub alias: Option<String>,
    pub enabled: bool,
    pub is_network: bool,
    pub network_fs_type: Option<String>,
    pub user_override_network: bool,
    pub last_scan: Option<i64>,
}

/// Whether a playlist's tracks are available locally.
#[derive(Debug, Clone, Copy, PartialEq, Eq, Structural)]
pub enum LocalContentStatus {
    Unknown,
    No,
    SomeLocal,
    AllLocal,
}

/// The stored text of each status.
pub open spec fn content_status_text(s: LocalContentStatus) -> &'static str {
    match s {
        LocalContentStatus::Unknown => "unknown",
        LocalContentStatus::No => "no",
        LocalContentStatus::SomeLocal => "some_local",
        LocalContentStatus::AllLocal => "all_local",
    }
}

/// The status a stored text stands for; any other text is `Unknown`.
pub open spec fn content_status_of(s: Seq<char>) -> LocalContentStatus {
    if s == "no"@ {
        LocalContentStatus::No
    } else if s == "some_local"@ {
        LocalContentStatus::SomeLocal
    } else if s == "all_local"@ {
        LocalContentStatus::AllLocal
    } else {
        LocalContentStatus::Unknown
    }
}

impl Default for LocalContentStatus {
    fn default() -> (r: Self)
        ensures
            r == LocalContentStatus::Unknown,
    {
        LocalContentStatus::Unknown
    }
}

impl LocalContentStatus {
    /// The status stored as `s`; unrecognised text gives `Unknown`.
    pub fn from_str(s: &str) -> (r: Self)
        ensures
            r == content_status_of(s@),
    {
        if str_eq(s, "no") {
            LocalContentStatus::No
        } else if str_eq(s, "some_local") {
            LocalContentStatus::SomeLocal
        } else if str_eq(s, "all_local") {
            LocalContentStatus::AllLocal
        } else {
            LocalContentStatus::Unknown
        }
    }

    /// The text under which the status is stored.
    pub fn as_str(&self) -> (r: &'static str)
        ensures
            r@ == content_status_text(*self)@,
    {
        match self {
            LocalContentStatus::Unknown => "unknown",
            LocalContentStatus::No => "no",
            LocalContentStatus::SomeLocal => "some_local",
            LocalContentStatus::AllLocal => "all_local",
        }
    }
}

/// Reading back the stored text of a status gives the same status.
pub proof fn lemma_content_status_round_trip(s: LocalContentStatus)
    ensures
        content_status_of(content_status_text(s)@) == s,
{
    reveal_strlit("unknown");
    reveal_strlit("no");
    reveal_strlit("some_local");
    reveal_strlit("all_local");
    assert("unknown"@.len() == 7);
    assert("no"@.len() == 2);
    assert("some_local"@.len() == 10);
    assert("all_local"@.len() == 9);
    assert("some_local"@[0] != "all_local"@[0]);
}

/// Local settings of a remote playlist.
#[derive(Debug, Clone)]
pub struct PlaylistSettings {
    pub qobuz_playlist_id: u64,
    pub custom_artwork_path: Option<String>,
    pub sort_by: String,
    pub sort_order: String,
    pub last_search_query: Option<String>,
    pub notes: Option<String>,
    pub hidden: bool,
    pub position: i32,
    pub has_local_content: LocalContentStatus,
    pub is_favorite: bool,
    /// The folder of the playlist (`None` = root).
    pub folder_id: Option<String>,
    pub created_at: i64,
    pub updated_at: i64,
}

/// Play statistics of a playlist.
#[derive(Debug, Clone)]
pub struct PlaylistStats {
    pub qobuz_playlist_id: u64,
    pub play_count: u32,
    pub last_played_at: Option<i64>,
    pub created_at: i64,
    pub updated_at: i64,
}

/// A folder that groups playlists locally.
#[derive(Debug, Clone)]
pub struct PlaylistFolder {
    pub id: String,
    pub name: String,
    /// "preset" or "custom".
    pub icon_type: String,
    pub icon_preset: String,
    pub icon_color: String,
    pub custom_image_path: Option<String>,
    pub is_hidden: bool,
    pub position: i32,
    pub created_at: i64,
    pub updated_at: i64,
}

/// Seconds since the Unix epoch by the system clock, 0 when the clock reads
/// before the epoch. Nothing is stated of the value: it is the time.
#[verifier::external_body]
fn unix_secs_now() -> (r: i64) {
    match std::time::SystemTime::now().duration_since(std::time::UNIX_EPOCH) {
        Ok(d) => d.as_secs() as i64,
        Err(_) => 0,
    }
}

impl PlaylistSettings {
    /// Default settings stamped with the time `now`.
    pub fn new_at(now: i64) -> (r: Self)
        ensures
            r.qobuz_playlist_id == 0,
            r.custom_artwork_path is None,
            r.sort_by@ == "default"@,
            r.sort_order@ == "asc"@,
            r.last_search_query is None,
            r.notes is None,
            !r.hidden,
            r.position == 0,
            r.has_local_content == LocalContentStatus::Unknown,
            !r.is_favorite,
            r.folder_id is None,
            r.created_at == now,
            r.updated_at == now,
    {
        PlaylistSettings {
            qobuz_playlist_id: 0,
            custom_artwork_path: None,
            sort_by: String::from_str("default"),
            sort_order: String::from_str("asc"),
            last_search_query: None,
            notes: None,
            hidden: false,
            position: 0,
            has_local_content: LocalContentStatus::Unknown,
            is_favorite: false,
            folder_id: None,
            created_at: now,
            updated_at: now,
        }
    }
}

impl Default for PlaylistSettings {
    /// Default settings stamped with the current time.
    fn default() -> (r: Self)
        ensures
            r.qobuz_playlist_id == 0,
            r.sort_by@ == "default"@,
            r.sort_order@ == "asc"@,
            r.has_local_content == LocalContentStatus::Unknown,
            r.folder_id is None,
            r.created_at == r.updated_at,
    {
        PlaylistSettings::new_at(unix_secs_now())
    }
}

impl PlaylistStats {
    /// Empty statistics stamped with the time `now`.
    pub fn new_at(now: i64) -> (r: Self)
        ensures
            r.qobuz_playlist_id == 0,
            r.play_count == 0,
            r.last_played_at is None,
            r.created_at == now,
            r.updated_at == now,
    {
        PlaylistStats { qobuz_playlist_id: 0, play_count: 0, last_played_at: None, created_at: now, updated_at: now }
    }
}

impl Default for PlaylistStats {
    /// Empty statistics stamped with the current time.
    fn default() -> (r: Self)
        ensures
            r.qobuz_playlist_id == 0,
            r.play_count == 0,
            r.last_played_at is None,
            r.created_at == r.updated_at,
    {
        PlaylistStats::new_at(unix_secs_now())
    }
}


/// How moving a track of a playlist's custom order to a new position is
/// carried out on the stored positions.
#[derive(Debug, Clone, Copy, PartialEq, Eq, Structural)]
pub enum TrackMovePlan {
    /// The track has no custom position yet: store it at the new position.
    Insert,
    /// The track is already at the new position.
    Unchanged,
    /// Moving up: the positions `from..to` (the new position up to, not
    /// including, the current one) go down the list by one, then the track
    /// takes the new position.
    ShiftDown { from: i32, to: i32 },
    /// Moving down: the positions after `from` (the current one) up to and
    /// including `to` (the new one) go up the list by one, then the track
    /// takes the new position.
    ShiftUp { from: i32, to: i32 },
}

/// The plan for moving a track stored at `current` (if it has a custom
/// position) to `new_position`.
pub open spec fn track_move_plan(current: Option<i32>, new_position: i32) -> TrackMovePlan {
    match current {
        None => TrackMovePlan::Insert,
        Some(c) => if c == new_position {
            TrackMovePlan::Unchanged
        } else if new_position < c {
            TrackMovePlan::ShiftDown { from: new_position, to: c }
        } else {
            TrackMovePlan::ShiftUp { from: c, to: new_position }
        },
    }
}

/// Where another track stored at `p` ends up under `plan`.
pub open spec fn position_after_plan(plan: TrackMovePlan, p: int) -> int {
    match plan {
        TrackMovePlan::ShiftDown { from, to } => if from <= p < to { p + 1 } else { p },
        TrackMovePlan::ShiftUp { from, to } => if from < p <= to { p - 1 } else { p },
        _ => p,
    }
}

/// The stored positions after the track at index `i` moves to `new_position`.
pub open spec fn positions_after_move(positions: Seq<i32>, i: int, new_position: i32) -> Seq<int> {
    let plan = track_move_plan(Some(positions[i]), new_position);
    Seq::new(
        positions.len(),
        |j: int| if j == i { new_position as int } else { position_after_plan(plan, positions[j] as int) },
    )
}

/// Decide how to move a track of a playlist's custom order from its stored
/// position (`None` when it has none) to `new_position`.
pub fn plan_track_move(current_position: Option<i32>, new_position: i32) -> (r: TrackMovePlan)
    ensures
        r == track_move_plan(current_position, new_position),
{
    match current_position {
        None => TrackMovePlan::Insert,
        Some(c) => if c == new_position {
            TrackMovePlan::Unchanged
        } else if new_position < c {
            TrackMovePlan::ShiftDown { from: new_position, to: c }
        } else {
            TrackMovePlan::ShiftUp { from: c, to: new_position }
        },
    }
}

/// Moving a track within a custom order whose positions are `0..n`, each
/// once, to a position in `0..n` keeps the positions `0..n`, each once, and
/// puts the track at the new position.
pub proof fn lemma_track_move_keeps_order(positions: Seq<i32>, i: int, new_position: i32)
    requires
        0 <= i < positions.len(),
        0 <= new_position < positions.len(),
        forall|j: int| 0 <= j < positions.len() ==> 0 <= #[trigger] positions[j] < positions.len(),
        forall|j: int, k: int| 0 <= j < k < positions.len() ==> positions[j] != positions[k],
    ensures
        positions_after_move(positions, i, new_position)[i] == new_position,
        forall|j: int|
            0 <= j < positions.len() ==> 0 <= #[trigger] positions_after_move(positions, i, new_position)[j]
                < positions.len(),
        forall|j: int, k: int|
            0 <= j < k < positions.len() ==> positions_after_move(positions, i, new_position)[j]
                != positions_after_move(positions, i, new_position)[k],
{
    let r = positions_after_move(positions, i, new_position);
    assert forall|j: int, k: int| 0 <= j < k < positions.len() implies r[j] != r[k] by {
        assert(positions[j] != positions[k]);
        if j != i {
            assert(positions[j] != positions[i]);
        }
        if k != i {
            assert(positions[k] != positions[i]);
        }
    }
    assert forall|j: int| 0 <= j < positions.len() implies 0 <= #[trigger] r[j] < positions.len() by {
        if j != i {
            assert(positions[j] != positions[i]);
        }
    }
}

} // verus!
