use vstd::prelude::*;

verus! {

/// A track as the playback queue stores it.
///
/// `sample_rate_bits` holds the IEEE-754 bit pattern of the sample rate
/// (in kHz) that the catalogue reports, so that the value passes through the
/// queue unchanged.
#[derive(Debug)]
pub struct QueueTrack {
    pub id: u64,
    pub title: String,
    /// Subtitle / edition info rendered after the title.
    pub version: Option<String>,
    pub artist: String,
    pub album: String,
    pub duration_secs: u64,
    pub artwork_url: Option<String>,
    pub hires: bool,
    pub bit_depth: Option<u32>,
    pub sample_rate_bits: Option<u64>,
    /// Whether this is a local library track.
    pub is_local: bool,
    pub album_id: Option<String>,
    pub artist_id: Option<u64>,
    /// Whether the track is streamable (false = removed / unavailable).
    pub streamable: bool,
    /// Source identifier ("qobuz", "local", "plex", ...).
    pub source: Option<String>,
    /// Parental advisory / explicit content.
    pub parental_warning: bool,
    /// Identifier of the collection item that produced this track.
    pub source_item_id_hint: Option<String>,
}

/// A copy of an optional string.
pub fn clone_opt_string(s: &Option<String>) -> (r: Option<String>)
    ensures
        r == *s,
{
    match s {
        Some(v) => Some(v.clone()),
        None => None,
    }
}

impl Clone for QueueTrack {
    fn clone(&self) -> (r: Self)
        ensures
            r == *self,
    {
        QueueTrack {
            id: self.id,
            title: self.title.clone(),
            version: clone_opt_string(&self.version),
            artist: self.artist.clone(),
            album: self.album.clone(),
            duration_secs: self.duration_secs,
            artwork_url: clone_opt_string(&self.artwork_url),
            hires: self.hires,
            bit_depth: self.bit_depth,
            sample_rate_bits: self.sample_rate_bits,
            is_local: self.is_local,
            album_id: clone_opt_string(&self.album_id),
            artist_id: self.artist_id,
            streamable: self.streamable,
            source: clone_opt_string(&self.source),
            parental_warning: self.parental_warning,
            source_item_id_hint: clone_opt_string(&self.source_item_id_hint),
        }
    }
}

/// The default for `streamable` when a stored track does not say.
pub fn default_streamable() -> (r: bool)
    ensures
        r,
{
    true
}

/// Repeat mode of the queue.
#[derive(Debug, Clone, Copy, PartialEq, Eq, Structural)]
pub enum RepeatMode {
    Off,
    All,
    One,
}

impl Default for RepeatMode {
    fn default() -> (r: Self)
        ensures
            r == RepeatMode::Off,
    {
        RepeatMode::Off
    }
}

/// Snapshot of the queue for the user interface.
#[derive(Debug)]
pub struct QueueState {
    pub current_track: Option<QueueTrack>,
    pub current_index: Option<usize>,
    pub upcoming: Vec<QueueTrack>,
    pub history: Vec<QueueTrack>,
    pub shuffle: bool,
    pub repeat: RepeatMode,
    pub total_tracks: usize,
    pub stop_after_track_id: Option<u64>,
}

/// The state of the player.
#[derive(Debug, Clone, Copy, PartialEq, Eq, Structural)]
pub enum PlaybackState {
    /// No track loaded.
    Stopped,
    /// A track is loaded and playing.
    Playing,
    /// A track is loaded but paused.
    Paused,
    /// A track is loading or buffering.
    Loading,
}

impl Default for PlaybackState {
    fn default() -> (r: Self)
        ensures
            r == PlaybackState::Stopped,
    {
        PlaybackState::Stopped
    }
}

} // verus!
