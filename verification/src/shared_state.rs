//! Playback state shared between the player front end and the audio thread:
//! play/pause, position tracking, stream quality, output device, gapless
//! hand-over and the bit-perfect mode of the current stream.

use vstd::prelude::*;

verus! {

/// How the current output stream reaches the hardware.
#[derive(Debug, Clone, Copy, PartialEq, Eq, Structural)]
pub enum BitPerfectMode {
    /// Shared system path (PipeWire / Pulse / CPAL): bit-perfect not guaranteed.
    Disabled,
    /// Direct ALSA `hw:` access.
    DirectHardware,
    /// ALSA `plughw:` with format conversion.
    PluginFallback,
}

/// The code under which a bit-perfect mode is stored (0 = no stream).
pub open spec fn bit_perfect_code(mode: Option<BitPerfectMode>) -> u8 {
    match mode {
        None => 0,
        Some(BitPerfectMode::Disabled) => 1,
        Some(BitPerfectMode::DirectHardware) => 2,
        Some(BitPerfectMode::PluginFallback) => 3,
    }
}

/// The bit-perfect mode a stored code stands for.
pub open spec fn bit_perfect_from_code(code: u8) -> Option<BitPerfectMode> {
    if code == 1 {
        Some(BitPerfectMode::Disabled)
    } else if code == 2 {
        Some(BitPerfectMode::DirectHardware)
    } else if code == 3 {
        Some(BitPerfectMode::PluginFallback)
    } else {
        None
    }
}

/// Largest start position for which the elapsed time can never overflow.
pub open spec fn position_start_bound() -> int {
    u64::MAX - u64::MAX / 1000
}

/// Abstract shared state.
#[verifier::ext_equal]
pub struct SharedView {
    pub is_playing: bool,
    pub position: u64,
    pub duration: u64,
    pub current_track_id: u64,
    pub has_loaded_audio: bool,
    /// Volume, 0..=100.
    pub volume_percent: u64,
    /// Unix time (ms) when playback started or resumed; 0 when not timing.
    pub playback_start_millis: u64,
    /// Position (s) when playback started or resumed.
    pub position_at_start: u64,
    pub current_device: Option<String>,
    pub stream_error: bool,
    pub sample_rate: u32,
    pub bit_depth: u32,
    /// Bit pattern of the normalization gain (0 = not applied).
    pub normalization_gain_bits: u32,
    pub gapless_ready: bool,
    pub gapless_next_track_id: u64,
    /// Bit pattern of the streaming buffer progress (0 = not streaming).
    pub buffer_progress_bits: u32,
    pub bit_perfect_code: u8,
}

/// Position (s) at Unix time `now` (ms): while playing and timing, the
/// position at start plus the whole seconds elapsed, clamped to the duration;
/// otherwise the stored position.
pub open spec fn position_at(s: SharedView, now: u64) -> u64 {
    if !s.is_playing || s.playback_start_millis == 0 {
        s.position
    } else {
        let elapsed = if now >= s.playback_start_millis {
            (now - s.playback_start_millis) / 1000
        } else {
            0
        };
        let p = s.position_at_start + elapsed;
        if p <= s.duration { p as u64 } else { s.duration }
    }
}

/// The state after the timer starts at `position` (s) at Unix time `now` (ms).
pub open spec fn timer_started(s: SharedView, position: u64, now: u64) -> SharedView {
    SharedView { playback_start_millis: now, position_at_start: position, ..s }
}

/// The state after pausing at Unix time `now` (ms): the position at that
/// time is stored and timing stops.
pub open spec fn timer_paused(s: SharedView, now: u64) -> SharedView {
    SharedView { position: position_at(s, now), playback_start_millis: 0, ..s }
}

/// The state of a new player: stopped, nothing loaded, volume 75, no stream.
pub open spec fn initial_shared_view() -> SharedView {
    SharedView {
        is_playing: false,
        position: 0,
        duration: 0,
        current_track_id: 0,
        has_loaded_audio: false,
        volume_percent: 75,
        playback_start_millis: 0,
        position_at_start: 0,
        current_device: None,
        stream_error: false,
        sample_rate: 0,
        bit_depth: 0,
        normalization_gain_bits: 0,
        gapless_ready: false,
        gapless_next_track_id: 0,
        buffer_progress_bits: 0,
        bit_perfect_code: 0,
    }
}

/// Reads the system clock (`std::time::SystemTime::now`) as milliseconds
/// since the Unix epoch, truncated to 64 bits (0 before the epoch). Nothing
/// is stated of the value: it depends on the time.
#[verifier::external_body]
fn unix_millis_now() -> u64 {
    std::time::SystemTime::now()
        .duration_since(std::time::UNIX_EPOCH)
        .unwrap_or_default()
        .as_millis() as u64
}

pub struct SharedState {
    is_playing: bool,
    position: u64,
    duration: u64,
    current_track_id: u64,
    has_loaded_audio: bool,
    volume: u64,
    playback_start_millis: u64,
    position_at_start: u64,
    current_device: Option<String>,
    stream_error: bool,
    sample_rate: u32,
    bit_depth: u32,
    normalization_gain: u32,
    gapless_ready: bool,
    gapless_next_track_id: u64,
    buffer_progress: u32,
    bit_perfect_mode: u8,
}

impl View for SharedState {
    type V = SharedView;

    closed spec fn view(&self) -> SharedView {
        SharedView {
            is_playing: self.is_playing,
            position: self.position,
            duration: self.duration,
            current_track_id: self.current_track_id,
            has_loaded_audio: self.has_loaded_audio,
            volume_percent: self.volume,
            playback_start_millis: self.playback_start_millis,
            position_at_start: self.position_at_start,
            current_device: self.current_device,
            stream_error: self.stream_error,
            sample_rate: self.sample_rate,
            bit_depth: self.bit_depth,
            normalization_gain_bits: self.normalization_gain,
            gapless_ready: self.gapless_ready,
            gapless_next_track_id: self.gapless_next_track_id,
            buffer_progress_bits: self.buffer_progress,
            bit_perfect_code: self.bit_perfect_mode,
        }
    }
}

impl SharedState {
    /// Stopped, nothing loaded, volume 75, no stream.
    pub fn new() -> (r: Self)
        ensures
            r@ == initial_shared_view(),
    {
        SharedState {
            is_playing: false,
            position: 0,
            duration: 0,
            current_track_id: 0,
            has_loaded_audio: false,
            volume: 75,
            playback_start_millis: 0,
            position_at_start: 0,
            current_device: None,
            stream_error: false,
            sample_rate: 0,
            bit_depth: 0,
            normalization_gain: 0,
            gapless_ready: false,
            gapless_next_track_id: 0,
            buffer_progress: 0,
            bit_perfect_mode: 0,
        }
    }

    pub fn set_stream_error(&mut self, error: bool)
        ensures
            final(self)@ == (SharedView { stream_error: error, ..old(self)@ }),
    {
        self.stream_error = error;
    }

    pub fn has_stream_error(&self) -> (r: bool)
        ensures
            r == self@.stream_error,
    {
        self.stream_error
    }

    /// Record the sample rate and bit depth of the current stream.
    pub fn set_stream_quality(&mut self, sample_rate: u32, bit_depth: u32)
        ensures
            final(self)@ == (SharedView { sample_rate: sample_rate, bit_depth: bit_depth, ..old(self)@ }),
    {
        self.sample_rate = sample_rate;
        self.bit_depth = bit_depth;
    }

    /// Record the bit-perfect mode of the active stream (`None` when no
    /// stream is active).
    pub fn set_bit_perfect_mode(&mut self, mode: Option<BitPerfectMode>)
        ensures
            final(self)@ == (SharedView { bit_perfect_code: bit_perfect_code(mode), ..old(self)@ }),
    {
        let code: u8 = match mode {
            None => 0,
            Some(BitPerfectMode::Disabled) => 1,
            Some(BitPerfectMode::DirectHardware) => 2,
            Some(BitPerfectMode::PluginFallback) => 3,
        };
        self.bit_perfect_mode = code;
    }

    /// The bit-perfect mode of the active stream; `None` before any stream.
    pub fn get_bit_perfect_mode(&self) -> (r: Option<BitPerfectMode>)
        ensures
            r == bit_perfect_from_code(self@.bit_perfect_code),
    {
        match self.bit_perfect_mode {
            1 => Some(BitPerfectMode::Disabled),
            2 => Some(BitPerfectMode::DirectHardware),
            3 => Some(BitPerfectMode::PluginFallback),
            _ => None,
        }
    }

    pub fn get_sample_rate(&self) -> (r: u32)
        ensures
            r == self@.sample_rate,
    {
        self.sample_rate
    }

    pub fn get_bit_depth(&self) -> (r: u32)
        ensures
            r == self@.bit_depth,
    {
        self.bit_depth
    }

    /// The quality of the current stream as reported to the front end: the
    /// sample rate and bit depth, each `None` while unknown (0).
    pub fn stream_quality(&self) -> (r: (Option<u32>, Option<u32>))
        ensures
            r.0 == (if self@.sample_rate > 0 { Some(self@.sample_rate) } else { None }),
            r.1 == (if self@.bit_depth > 0 { Some(self@.bit_depth) } else { None }),
    {
        (
            if self.sample_rate > 0 { Some(self.sample_rate) } else { None },
            if self.bit_depth > 0 { Some(self.bit_depth) } else { None },
        )
    }

    /// Where a seek to `position` (s) lands: clamped to the duration when
    /// the duration is known (non-zero).
    pub fn seek_target(&self, position: u64) -> (r: u64)
        ensures
            r == (if self@.duration > 0 && position > self@.duration { self@.duration } else { position }),
    {
        if self.duration > 0 && position > self.duration {
            self.duration
        } else {
            position
        }
    }

    /// Store the normalization gain as its bit pattern (0 = not applied).
    pub fn set_normalization_gain_bits(&mut self, bits: u32)
        ensures
            final(self)@ == (SharedView { normalization_gain_bits: bits, ..old(self)@ }),
    {
        self.normalization_gain = bits;
    }

    pub fn normalization_gain_bits(&self) -> (r: u32)
        ensures
            r == self@.normalization_gain_bits,
    {
        self.normalization_gain
    }

    /// Store the streaming buffer progress as its bit pattern (0 = not streaming).
    pub fn set_buffer_progress_bits(&mut self, bits: u32)
        ensures
            final(self)@ == (SharedView { buffer_progress_bits: bits, ..old(self)@ }),
    {
        self.buffer_progress = bits;
    }

    pub fn buffer_progress_bits(&self) -> (r: u32)
        ensures
            r == self@.buffer_progress_bits,
    {
        self.buffer_progress
    }

    pub fn set_current_device(&mut self, device: Option<String>)
        ensures
            final(self)@ == (SharedView { current_device: device, ..old(self)@ }),
    {
        self.current_device = device;
    }

    pub fn current_device(&self) -> (r: Option<String>)
        ensures
            r == self@.current_device,
    {
        match &self.current_device {
            Some(d) => Some(d.clone()),
            None => None,
        }
    }

    pub fn set_gapless_ready(&mut self, ready: bool)
        ensures
            final(self)@ == (SharedView { gapless_ready: ready, ..old(self)@ }),
    {
        self.gapless_ready = ready;
    }

    pub fn is_gapless_ready(&self) -> (r: bool)
        ensures
            r == self@.gapless_ready,
    {
        self.gapless_ready
    }

    pub fn set_gapless_next_track_id(&mut self, track_id: u64)
        ensures
            final(self)@ == (SharedView { gapless_next_track_id: track_id, ..old(self)@ }),
    {
        self.gapless_next_track_id = track_id;
    }

    pub fn get_gapless_next_track_id(&self) -> (r: u64)
        ensures
            r == self@.gapless_next_track_id,
    {
        self.gapless_next_track_id
    }

    /// The position (s) at Unix time `now_millis`; see `position_at`.
    pub fn position_at(&self, now_millis: u64) -> (r: u64)
        requires
            self@.position_at_start <= position_start_bound(),
        ensures
            r == position_at(self@, now_millis),
    {
        if !self.is_playing {
            return self.position;
        }
        let start_millis = self.playback_start_millis;
        if start_millis == 0 {
            return self.position;
        }
        let elapsed_secs = (if now_millis >= start_millis { now_millis - start_millis } else { 0 }) / 1000;
        let p = self.position_at_start + elapsed_secs;
        if p <= self.duration { p } else { self.duration }
    }

    /// The position (s) now, from the time elapsed since playback started.
    pub fn current_position(&self) -> (r: u64)
        requires
            self@.position_at_start <= position_start_bound(),
        ensures
            exists|now: u64| r == #[trigger] position_at(self@, now),
    {
        let now = unix_millis_now();
        self.position_at(now)
    }

    /// Mark playback as started or resumed at `position` (s) at Unix time
    /// `now_millis`.
    pub fn start_playback_timer_at(&mut self, position: u64, now_millis: u64)
        ensures
            final(self)@ == timer_started(old(self)@, position, now_millis),
    {
        self.playback_start_millis = now_millis;
        self.position_at_start = position;
    }

    /// Mark playback as started or resumed at `position` (s) now.
    pub fn start_playback_timer(&mut self, position: u64)
        ensures
            exists|now: u64| final(self)@ == #[trigger] timer_started(old(self)@, position, now),
    {
        let now = unix_millis_now();
        self.start_playback_timer_at(position, now);
    }

    /// Mark playback as paused at Unix time `now_millis`: the position at
    /// that time is stored and timing stops.
    pub fn pause_playback_timer_at(&mut self, now_millis: u64)
        requires
            old(self)@.position_at_start <= position_start_bound(),
        ensures
            final(self)@ == timer_paused(old(self)@, now_millis),
    {
        let current_pos = self.position_at(now_millis);
        self.position = current_pos;
        self.playback_start_millis = 0;
    }

    /// Mark playback as paused now, storing the current position.
    pub fn pause_playback_timer(&mut self)
        requires
            old(self)@.position_at_start <= position_start_bound(),
        ensures
            exists|now: u64| final(self)@ == #[trigger] timer_paused(old(self)@, now),
    {
        let now = unix_millis_now();
        self.pause_playback_timer_at(now);
    }

    /// Stop timing without touching the stored positions.
    pub(crate) fn clear_playback_start(&mut self)
        ensures
            final(self)@ == (SharedView { playback_start_millis: 0, ..old(self)@ }),
    {
        self.playback_start_millis = 0;
    }

    /// Position (s) at which timing last started.
    pub fn position_at_start(&self) -> (r: u64)
        ensures
            r == self@.position_at_start,
    {
        self.position_at_start
    }

    pub fn set_playing(&mut self, playing: bool)
        ensures
            final(self)@ == (SharedView { is_playing: playing, ..old(self)@ }),
    {
        self.is_playing = playing;
    }

    pub fn is_playing(&self) -> (r: bool)
        ensures
            r == self@.is_playing,
    {
        self.is_playing
    }

    pub fn set_position(&mut self, position: u64)
        ensures
            final(self)@ == (SharedView { position: position, ..old(self)@ }),
    {
        self.position = position;
    }

    pub fn position(&self) -> (r: u64)
        ensures
            r == self@.position,
    {
        self.position
    }

    pub fn set_duration(&mut self, duration: u64)
        ensures
            final(self)@ == (SharedView { duration: duration, ..old(self)@ }),
    {
        self.duration = duration;
    }

    pub fn duration(&self) -> (r: u64)
        ensures
            r == self@.duration,
    {
        self.duration
    }

    pub fn set_current_track_id(&mut self, track_id: u64)
        ensures
            final(self)@ == (SharedView { current_track_id: track_id, ..old(self)@ }),
    {
        self.current_track_id = track_id;
    }

    pub fn current_track_id(&self) -> (r: u64)
        ensures
            r == self@.current_track_id,
    {
        self.current_track_id
    }

    pub fn set_loaded_audio(&mut self, loaded: bool)
        ensures
            final(self)@ == (SharedView { has_loaded_audio: loaded, ..old(self)@ }),
    {
        self.has_loaded_audio = loaded;
    }

    pub fn has_loaded_audio(&self) -> (r: bool)
        ensures
            r == self@.has_loaded_audio,
    {
        self.has_loaded_audio
    }

    /// Store the volume as a percentage.
    pub fn set_volume_percent(&mut self, percent: u64)
        ensures
            final(self)@ == (SharedView { volume_percent: percent, ..old(self)@ }),
    {
        self.volume = percent;
    }

    /// The volume as a percentage (0..=100).
    pub fn volume_percent(&self) -> (r: u64)
        ensures
            r == self@.volume_percent,
    {
        self.volume
    }
}

impl Default for SharedState {
    fn default() -> (r: Self)
        ensures
            r@ == initial_shared_view(),
    {
        SharedState::new()
    }
}

/// A stored bit-perfect mode reads back as itself.
pub proof fn lemma_bit_perfect_round_trip(mode: Option<BitPerfectMode>)
    ensures
        bit_perfect_from_code(bit_perfect_code(mode)) == mode,
{
}

/// While playing, the position after starting the timer at `position` (s)
/// at time `start` (ms, non-zero) is `position` plus the whole seconds since,
/// never beyond the duration.
pub proof fn lemma_position_follows_time(s: SharedView, position: u64, start: u64, now: u64)
    requires
        s.is_playing,
        start != 0,
        start <= now,
    ensures
        position_at(timer_started(s, position, start), now) == (if position + (now - start) / 1000 <= s.duration {
            (position + (now - start) / 1000) as u64
        } else {
            s.duration
        }),
{
}

/// The position never goes back as time goes on.
pub proof fn lemma_position_monotone(s: SharedView, t1: u64, t2: u64)
    requires
        t1 <= t2,
        s.position_at_start <= s.duration,
    ensures
        position_at(s, t1) <= position_at(s, t2),
{
    if s.is_playing && s.playback_start_millis != 0 && t1 >= s.playback_start_millis {
        assert((t1 - s.playback_start_millis) / 1000 <= (t2 - s.playback_start_millis) / 1000) by (nonlinear_arith)
            requires
                t1 - s.playback_start_millis <= t2 - s.playback_start_millis,
                0 <= t1 - s.playback_start_millis;
    }
}

/// Pausing freezes the position: after a pause at `t1` the position is the
/// one at `t1`, whatever the time.
pub proof fn lemma_pause_freezes_position(s: SharedView, t1: u64, t2: u64)
    ensures
        position_at(timer_paused(s, t1), t2) == position_at(s, t1),
{
}

} // verus!
