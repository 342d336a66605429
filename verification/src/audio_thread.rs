//! Decisions of the audio thread.
//!
//! The audio thread owns the output stream and the playback engine and
//! handles one command at a time (play, play streaming, pause, resume, stop,
//! seek, device re-init, gapless next track), plus a periodic poll while
//! playing and a pause-suspend timer while idle. Everything it decides is
//! here, as steps on `AudioControl` (what the thread keeps between commands,
//! as plain values) and `SharedState` (what the front end reads). The steps
//! name the outside work to do next (open a stream, stop the engine, ...);
//! the caller performs it and reports how it went to the following step.

use vstd::prelude::*;
use crate::shared_state::{
    SharedState, SharedView, position_at, position_start_bound, timer_started, timer_paused,
};

verus! {

/// Consecutive engine-creation failures after which the stream is reopened.
pub const MAX_SINK_FAILURES: u32 = 3;

/// Seconds before the end of a track at which the next track is requested.
pub const GAPLESS_LEAD_SECS: u64 = 10;

/// Sample rate used to reopen a stream when no format is known yet.
pub const FALLBACK_SAMPLE_RATE: u32 = 48000;

/// Channel count used to reopen a stream when no format is known yet.
pub const FALLBACK_CHANNELS: u16 = 2;

/// A track appended behind the current one for a gapless hand-over.
#[derive(Debug, Clone, Copy, PartialEq, Eq, Structural)]
pub struct PendingTrack {
    pub track_id: u64,
    pub duration_secs: u64,
    /// Bit pattern of its normalization gain, when normalization applies.
    pub normalization_gain_bits: Option<u32>,
}

/// What the audio thread keeps between commands.
#[derive(Debug)]
pub struct AudioControl {
    /// Output device asked for (`None` = system default).
    pub device_name: Option<String>,
    /// An output stream is open.
    pub has_stream: bool,
    /// Format of the open stream, once one was opened for a track.
    pub current_sample_rate: Option<u32>,
    pub current_channels: Option<u16>,
    /// A playback engine is attached to the stream.
    pub has_engine: bool,
    /// The whole file of the current track is held (for seek and resume).
    pub has_audio_data: bool,
    /// A streaming download is the current source.
    pub streaming: bool,
    pub consecutive_sink_failures: u32,
    /// The stream is to be released once the pause-suspend delay has passed.
    pub suspend_pending: bool,
    /// Bit pattern of the current track's normalization gain.
    pub normalization_gain_bits: Option<u32>,
    /// Loudness is measured while playing and the gain follows it.
    pub dynamic_gain: bool,
    /// The next track, already appended for a gapless hand-over.
    pub gapless_pending: Option<PendingTrack>,
    /// The next track was requested for the current one.
    pub gapless_request_armed: bool,
}

/// A freshly started thread: nothing open, nothing loaded.
pub open spec fn idle_control(device_name: Option<String>) -> AudioControl {
    AudioControl {
        device_name: device_name,
        has_stream: false,
        current_sample_rate: None,
        current_channels: None,
        has_engine: false,
        has_audio_data: false,
        streaming: false,
        consecutive_sink_failures: 0,
        suspend_pending: false,
        normalization_gain_bits: None,
        dynamic_gain: false,
        gapless_pending: None,
        gapless_request_armed: false,
    }
}

/// The stored pattern of an optional gain (0 = not applied).
pub open spec fn gain_bits(g: Option<u32>) -> u32 {
    match g {
        Some(b) => b,
        None => 0,
    }
}

/// The format a stream is reopened at: the last one, else 48 kHz stereo.
pub open spec fn fallback_format(c: AudioControl) -> (u32, u16) {
    (
        match c.current_sample_rate {
            Some(r) => r,
            None => FALLBACK_SAMPLE_RATE,
        },
        match c.current_channels {
            Some(n) => n,
            None => FALLBACK_CHANNELS,
        },
    )
}

/// Which kind of play command is being handled.
#[derive(Debug, Clone, Copy, PartialEq, Eq, Structural)]
pub enum PlayKind {
    /// The whole file is at hand.
    File,
    /// The file is still downloading into a streaming buffer.
    Streaming,
}

/// What to do with the output stream before playing a track.
#[derive(Debug, Clone, Copy, PartialEq, Eq, Structural)]
pub enum StreamPlan {
    /// The open stream serves the new track.
    Reuse,
    /// No stream is open: open one at the track's format.
    Open,
    /// Stop the engine (when `stop_engine`), release the stream, and open a
    /// new one at the track's format.
    Replace { stop_engine: bool },
}

/// The track's format differs from the open stream's.
pub open spec fn format_changed(c: AudioControl, sample_rate: u32, channels: u16) -> bool {
    c.current_sample_rate != Some(sample_rate) || c.current_channels != Some(channels)
}

/// A stream is opened when none is; it is replaced on a format change when
/// the output must follow the track's format (DAC passthrough or direct
/// ALSA); otherwise it is reused.
pub open spec fn stream_plan(
    c: AudioControl,
    sample_rate: u32,
    channels: u16,
    dac_passthrough: bool,
    alsa_direct: bool,
) -> StreamPlan {
    if !c.has_stream {
        StreamPlan::Open
    } else if (dac_passthrough || alsa_direct) && format_changed(c, sample_rate, channels) {
        StreamPlan::Replace { stop_engine: c.has_engine }
    } else {
        StreamPlan::Reuse
    }
}

/// The control state once a replaced stream and its engine are gone.
pub open spec fn after_plan(c: AudioControl, plan: StreamPlan) -> AudioControl {
    match plan {
        StreamPlan::Replace { .. } => AudioControl { has_engine: false, has_stream: false, ..c },
        _ => c,
    }
}

/// Shared state with the gapless hand-over markers cleared.
pub open spec fn gapless_cleared(s: SharedView) -> SharedView {
    SharedView { gapless_ready: false, gapless_next_track_id: 0, ..s }
}

/// The state when a play command arrives: the suspend timer is cancelled;
/// a file play drops any queued gapless track, a streaming play switches the
/// source to the download; then the stream plan is carried out up to the open.
pub open spec fn play_begun(
    c: AudioControl,
    s: SharedView,
    kind: PlayKind,
    sample_rate: u32,
    channels: u16,
    dac_passthrough: bool,
    alsa_direct: bool,
) -> (AudioControl, SharedView, StreamPlan) {
    let plan = stream_plan(c, sample_rate, channels, dac_passthrough, alsa_direct);
    match kind {
        PlayKind::File => (
            after_plan(
                AudioControl {
                    suspend_pending: false,
                    gapless_pending: None,
                    gapless_request_armed: false,
                    ..c
                },
                plan,
            ),
            gapless_cleared(s),
            plan,
        ),
        PlayKind::Streaming => (
            after_plan(
                AudioControl {
                    suspend_pending: false,
                    streaming: true,
                    has_audio_data: false,
                    ..c
                },
                plan,
            ),
            SharedView { has_loaded_audio: true, ..s },
            plan,
        ),
    }
}

/// How an engine-creation attempt ends.
#[derive(Debug, Clone, Copy, PartialEq, Eq, Structural)]
pub enum SinkOutcome {
    /// The engine is ready: go on with the track.
    Ready,
    /// Give up on this command.
    Abort,
    /// Too many failures in a row: the stream was released; reopen one at
    /// this format, then give up on this command.
    Reopen { sample_rate: u32, channels: u16 },
}

/// The state after an engine-creation attempt. A success clears the failure
/// count and the stream error. A failure while playing a file counts; the
/// third in a row flags a stream error and releases the stream for a reopen.
/// A failure while streaming gives up without counting.
pub open spec fn sink_outcome(c: AudioControl, s: SharedView, kind: PlayKind, created: bool) -> (
    AudioControl,
    SharedView,
    SinkOutcome,
) {
    if created {
        (
            AudioControl { consecutive_sink_failures: 0, ..c },
            SharedView { stream_error: false, ..s },
            SinkOutcome::Ready,
        )
    } else if kind == PlayKind::Streaming {
        (c, s, SinkOutcome::Abort)
    } else {
        let failures = (c.consecutive_sink_failures + 1) as u32;
        if failures >= MAX_SINK_FAILURES {
            (
                AudioControl { consecutive_sink_failures: failures, has_stream: false, ..c },
                SharedView { stream_error: true, ..s },
                SinkOutcome::Reopen {
                    sample_rate: fallback_format(c).0,
                    channels: fallback_format(c).1,
                },
            )
        } else {
            (AudioControl { consecutive_sink_failures: failures, ..c }, s, SinkOutcome::Abort)
        }
    }
}

/// The state once the track is decoded: its duration (the decoded one, else
/// the one asked for) and its normalization gain.
pub open spec fn track_prepared(
    c: AudioControl,
    s: SharedView,
    decoded_secs: Option<u64>,
    requested_secs: u64,
    gain: Option<u32>,
    dynamic_gain: bool,
) -> (AudioControl, SharedView) {
    (
        AudioControl { normalization_gain_bits: gain, dynamic_gain: dynamic_gain, ..c },
        SharedView {
            duration: match decoded_secs {
                Some(d) => d,
                None => requested_secs,
            },
            normalization_gain_bits: gain_bits(gain),
            ..s
        },
    )
}

/// The state once the track plays from the start at Unix time `now` (ms).
pub open spec fn track_started(c: AudioControl, s: SharedView, track_id: u64, now: u64) -> (
    AudioControl,
    SharedView,
) {
    (
        AudioControl { has_engine: true, ..c },
        timer_started(
            SharedView { is_playing: true, position: 0, current_track_id: track_id, ..s },
            0,
            now,
        ),
    )
}

/// Outside work a stop asks for.
#[derive(Debug, Clone, Copy, PartialEq, Eq, Structural)]
pub struct StopActions {
    pub stop_engine: bool,
    /// Give the PipeWire clock back to the graph (bit-perfect mode was forced).
    pub reset_pipewire_clock: bool,
}

/// The state after a stop: nothing loaded or queued, position 0, not
/// playing; the stream stays open until the suspend delay has passed.
pub open spec fn stopped(c: AudioControl, s: SharedView, pw_force_bitperfect: bool) -> (
    AudioControl,
    SharedView,
    StopActions,
) {
    (
        AudioControl {
            has_engine: false,
            has_audio_data: false,
            streaming: false,
            normalization_gain_bits: None,
            dynamic_gain: false,
            gapless_pending: None,
            gapless_request_armed: false,
            suspend_pending: true,
            ..c
        },
        SharedView {
            gapless_ready: false,
            gapless_next_track_id: 0,
            normalization_gain_bits: 0,
            is_playing: false,
            position: 0,
            has_loaded_audio: false,
            playback_start_millis: 0,
            position_at_start: 0,
            ..s
        },
        StopActions { stop_engine: c.has_engine, reset_pipewire_clock: pw_force_bitperfect },
    )
}

/// The state after a pause at Unix time `now` (ms): with an engine, the
/// position at `now` is kept, playback stops and the suspend timer starts;
/// without one nothing happens. The flag says whether to pause the engine.
pub open spec fn paused(c: AudioControl, s: SharedView, now: u64) -> (AudioControl, SharedView, bool) {
    if c.has_engine {
        (
            AudioControl { suspend_pending: true, ..c },
            SharedView { is_playing: false, ..timer_paused(s, now) },
            true,
        )
    } else {
        (c, s, false)
    }
}

/// A stream format to open.
#[derive(Debug, Clone, Copy, PartialEq, Eq, Structural)]
pub struct StreamFormat {
    pub sample_rate: u32,
    pub channels: u16,
}

/// Where a rebuilt engine gets its audio on resume.
#[derive(Debug, Clone, Copy, PartialEq, Eq, Structural)]
pub enum ResumeSource {
    /// The held file.
    AudioData,
    /// The finished download, taken over as the held file.
    CompletedStream,
}

/// Why a resume is refused.
#[derive(Debug, Clone, Copy, PartialEq, Eq, Structural)]
pub enum ResumeRefusal {
    /// The download has not finished, so there is nothing to rebuild from.
    StreamIncomplete,
    /// No track is loaded.
    NoAudioData,
}

/// How to resume.
#[derive(Debug, Clone, Copy, PartialEq, Eq, Structural)]
pub enum ResumePlan {
    /// The engine is still there: let it play on.
    Continue,
    /// The engine is gone: rebuild it from `source`, after opening a stream
    /// at `open_stream` when none is open; then skip to the stored position.
    Rebuild { source: ResumeSource, open_stream: Option<StreamFormat> },
    Refuse(ResumeRefusal),
}

/// The plan for a resume and the state it leaves (the suspend timer is
/// cancelled; a finished download becomes the held file).
pub open spec fn resume_planned(c: AudioControl, streaming_complete: bool) -> (AudioControl, ResumePlan) {
    let c1 = AudioControl { suspend_pending: false, ..c };
    let open = if c.has_stream {
        None
    } else {
        Some(StreamFormat { sample_rate: fallback_format(c).0, channels: fallback_format(c).1 })
    };
    if c.has_engine {
        (c1, ResumePlan::Continue)
    } else if c.has_audio_data {
        (c1, ResumePlan::Rebuild { source: ResumeSource::AudioData, open_stream: open })
    } else if c.streaming && streaming_complete {
        (
            AudioControl { has_audio_data: true, ..c1 },
            ResumePlan::Rebuild { source: ResumeSource::CompletedStream, open_stream: open },
        )
    } else if c.streaming {
        (c1, ResumePlan::Refuse(ResumeRefusal::StreamIncomplete))
    } else {
        (c1, ResumePlan::Refuse(ResumeRefusal::NoAudioData))
    }
}

/// The state once playback resumes at Unix time `now` (ms) from the stored
/// position.
pub open spec fn resumed(c: AudioControl, s: SharedView, now: u64) -> (AudioControl, SharedView) {
    (
        AudioControl { has_engine: true, ..c },
        SharedView { is_playing: true, ..timer_started(s, s.position, now) },
    )
}

/// Why a seek is refused.
#[derive(Debug, Clone, Copy, PartialEq, Eq, Structural)]
pub enum SeekRefusal {
    /// No track is loaded.
    NoAudioData,
    /// The download is under way and how far it got is unknown.
    ProgressUnknown,
    /// The target lies past what the download is known to hold.
    PastBuffered,
    /// No output stream is open.
    NoDevice,
}

/// How to seek.
#[derive(Debug, Clone, Copy, PartialEq, Eq, Structural)]
pub enum SeekPlan {
    Refuse(SeekRefusal),
    /// Stop the engine (when `stop_engine`), build a new one on a source
    /// positioned at the target, from the download when `from_stream`, else
    /// from the held file.
    Rebuild { stop_engine: bool, from_stream: bool },
}

/// The plan for a seek to `position` (s) and the state it leaves. Any
/// queued gapless track is dropped and the suspend timer cancelled first.
/// While a download is under way, only targets up to `seekable_secs` (what
/// the downloaded part is known to cover; `None` when unknown) are allowed.
pub open spec fn seek_planned(
    c: AudioControl,
    s: SharedView,
    position: u64,
    streaming_complete: bool,
    seekable_secs: Option<u64>,
) -> (AudioControl, SharedView, SeekPlan) {
    let c1 = AudioControl {
        suspend_pending: false,
        gapless_pending: None,
        gapless_request_armed: false,
        ..c
    };
    let s1 = gapless_cleared(s);
    if !c.has_audio_data && !c.streaming {
        (c1, s1, SeekPlan::Refuse(SeekRefusal::NoAudioData))
    } else if c.streaming && !streaming_complete && seekable_secs is None {
        (c1, s1, SeekPlan::Refuse(SeekRefusal::ProgressUnknown))
    } else if c.streaming && !streaming_complete && position > seekable_secs.unwrap() {
        (c1, s1, SeekPlan::Refuse(SeekRefusal::PastBuffered))
    } else if !c.has_stream {
        (c1, s1, SeekPlan::Refuse(SeekRefusal::NoDevice))
    } else {
        (
            AudioControl { has_engine: false, ..c1 },
            s1,
            SeekPlan::Rebuild { stop_engine: c.has_engine, from_stream: c.streaming },
        )
    }
}

/// The state once the new engine sits at `position` (s), at Unix time `now`
/// (ms): a playing track goes on from there, a paused one stays paused there
/// (the flag says to pause the new engine).
pub open spec fn seeked(c: AudioControl, s: SharedView, position: u64, now: u64) -> (
    AudioControl,
    SharedView,
    bool,
) {
    let s1 = SharedView { position: position, ..s };
    (
        AudioControl { has_engine: true, ..c },
        if s.is_playing { timer_started(s1, position, now) } else { s1 },
        !s.is_playing,
    )
}

/// What a device re-init asks for.
#[derive(Debug, Clone, Copy, PartialEq, Eq, Structural)]
pub struct ReinitPlan {
    pub stop_engine: bool,
    /// Format to open the new device at.
    pub sample_rate: u32,
    pub channels: u16,
}

/// The state and plan when switching to `device_name`: the engine and the
/// stream are released.
pub open spec fn reinit_begun(c: AudioControl, device_name: Option<String>) -> (AudioControl, ReinitPlan) {
    (
        AudioControl {
            suspend_pending: false,
            has_engine: false,
            has_stream: false,
            device_name: device_name,
            ..c
        },
        ReinitPlan {
            stop_engine: c.has_engine,
            sample_rate: fallback_format(c).0,
            channels: fallback_format(c).1,
        },
    )
}

/// The state after the new device was tried (`opened` says whether it
/// worked) at Unix time `now` (ms): playback is paused at the current
/// position so that a resume picks it up.
pub open spec fn reinit_done(c: AudioControl, s: SharedView, opened: bool, now: u64) -> (
    AudioControl,
    SharedView,
) {
    (
        if opened {
            AudioControl { has_stream: true, consecutive_sink_failures: 0, ..c }
        } else {
            c
        },
        SharedView { is_playing: false, ..timer_paused(s, now) },
    )
}

/// Why a next track is not queued for a gapless hand-over.
#[derive(Debug, Clone, Copy, PartialEq, Eq, Structural)]
pub enum PlayNextRefusal {
    /// Nothing is playing to append to.
    NoEngine,
    /// The next track's format differs from the open stream's.
    FormatMismatch,
    /// The current track still streams.
    Streaming,
}

/// Whether a next track at `sample_rate` / `channels` can be appended.
pub open spec fn play_next_refusal(c: AudioControl, sample_rate: u32, channels: u16) -> Option<
    PlayNextRefusal,
> {
    if !c.has_engine {
        Some(PlayNextRefusal::NoEngine)
    } else if c.current_sample_rate is Some && c.current_channels is Some && format_changed(
        c,
        sample_rate,
        channels,
    ) {
        Some(PlayNextRefusal::FormatMismatch)
    } else if c.streaming {
        Some(PlayNextRefusal::Streaming)
    } else {
        None
    }
}

/// The state once the next track was appended (`queued`) or could not be
/// (`None`): the request is answered either way.
pub open spec fn play_next_done(c: AudioControl, s: SharedView, queued: Option<PendingTrack>) -> (
    AudioControl,
    SharedView,
) {
    match queued {
        Some(p) => (
            AudioControl { gapless_pending: Some(p), ..c },
            SharedView { gapless_next_track_id: p.track_id, gapless_ready: false, ..s },
        ),
        None => (c, SharedView { gapless_ready: false, ..s }),
    }
}

/// What the periodic poll reads from outside.
#[derive(Debug, Clone, Copy, PartialEq, Eq, Structural)]
pub struct PollInput {
    /// The current download (if any) has finished.
    pub streaming_complete: bool,
    /// Bit pattern of the download's progress (1.0 when its size is unknown).
    pub progress_bits: u32,
    /// The engine reported that its next queued source started (its flag is
    /// taken, so it reports each start once; `false` without an engine).
    pub engine_transition: bool,
    /// The engine has nothing left to play (`false` without an engine).
    pub engine_empty: bool,
    pub gapless_enabled: bool,
}

/// What a poll did, and the outside work it asks for.
#[derive(Debug, Clone, Copy, PartialEq, Eq, Structural)]
pub struct PollActions {
    /// Take the finished download's bytes as the held file.
    pub take_stream_data: bool,
    /// The queued track took over; its bytes become the held file.
    pub handed_over: bool,
    /// The front end was asked for the next track.
    pub requested_next: bool,
    /// The track ran out.
    pub finished: bool,
}

/// The control state once the queued track `p` took over.
pub open spec fn handover_control(c: AudioControl, p: PendingTrack) -> AudioControl {
    AudioControl {
        has_audio_data: true,
        normalization_gain_bits: p.normalization_gain_bits,
        gapless_pending: None,
        gapless_request_armed: false,
        ..c
    }
}

/// The shared state once the queued track `p` took over at Unix time `now`
/// (ms): the hand-over markers are cleared, then `p` is the current track,
/// timed from 0.
pub open spec fn handover_shared(s: SharedView, p: PendingTrack, now: u64) -> SharedView {
    timer_started(
        SharedView {
            gapless_next_track_id: 0,
            gapless_ready: false,
            current_track_id: p.track_id,
            duration: p.duration_secs,
            normalization_gain_bits: gain_bits(p.normalization_gain_bits),
            ..s
        },
        0,
        now,
    )
}

/// Step 1 of a poll: publish the download's progress (0 when not
/// streaming); a finished download becomes the held file.
pub open spec fn promoted(c: AudioControl, s: SharedView, input: PollInput) -> (AudioControl, SharedView) {
    (
        if c.streaming && input.streaming_complete {
            AudioControl { streaming: false, has_audio_data: true, ..c }
        } else {
            c
        },
        SharedView { buffer_progress_bits: if c.streaming { input.progress_bits } else { 0 }, ..s },
    )
}

/// Step 2: a queued track takes over once the position `pos` reaches the
/// non-zero duration `dur`.
pub open spec fn position_handover(c: AudioControl, s: SharedView, pos: u64, dur: u64, now: u64) -> (
    AudioControl,
    SharedView,
    bool,
) {
    if c.gapless_pending is Some && dur > 0 && pos >= dur {
        (
            handover_control(c, c.gapless_pending.unwrap()),
            handover_shared(s, c.gapless_pending.unwrap(), now),
            true,
        )
    } else {
        (c, s, false)
    }
}

/// Step 3: a queued track takes over when the engine reports that it started.
pub open spec fn signalled_handover(c: AudioControl, s: SharedView, engine_transition: bool, now: u64) -> (
    AudioControl,
    SharedView,
    bool,
) {
    if c.has_engine && engine_transition && c.gapless_pending is Some {
        (
            handover_control(c, c.gapless_pending.unwrap()),
            handover_shared(s, c.gapless_pending.unwrap(), now),
            true,
        )
    } else {
        (c, s, false)
    }
}

/// Step 4: unless a hand-over just happened, the next track is requested
/// once `pos` is within `GAPLESS_LEAD_SECS` of the non-zero duration `dur`,
/// if gapless playback is on, nothing is queued, requested or announced, and
/// the track does not stream.
pub open spec fn next_requested(
    c: AudioControl,
    s: SharedView,
    gapless_enabled: bool,
    handed_over: bool,
    pos: u64,
    dur: u64,
) -> (AudioControl, SharedView, bool) {
    if gapless_enabled && !handed_over && dur > 0 && pos + GAPLESS_LEAD_SECS >= dur
        && c.gapless_pending is None && !c.gapless_request_armed && !s.gapless_ready
        && s.gapless_next_track_id == 0 && !c.streaming {
        (
            AudioControl { gapless_request_armed: true, ..c },
            SharedView { gapless_ready: true, ..s },
            true,
        )
    } else {
        (c, s, false)
    }
}

/// Step 5: if the engine ran dry while playing, playback ends at the
/// duration and every gapless marker is cleared.
pub open spec fn ran_out(c: AudioControl, s: SharedView, engine_empty: bool) -> (
    AudioControl,
    SharedView,
    bool,
) {
    if c.has_engine && engine_empty && s.is_playing {
        (
            AudioControl { gapless_pending: None, gapless_request_armed: false, ..c },
            SharedView {
                is_playing: false,
                position: s.duration,
                playback_start_millis: 0,
                gapless_ready: false,
                gapless_next_track_id: 0,
                ..s
            },
            true,
        )
    } else {
        (c, s, false)
    }
}

/// The periodic poll while playing, at Unix time `now` (ms): the five steps
/// above in order, with the position and duration read after step 1.
pub open spec fn polled(c: AudioControl, s: SharedView, input: PollInput, now: u64) -> (
    AudioControl,
    SharedView,
    PollActions,
) {
    let (c1, s1) = promoted(c, s, input);
    let pos = position_at(s1, now);
    let dur = s1.duration;
    let (c2, s2, h1) = position_handover(c1, s1, pos, dur, now);
    let (c3, s3, h2) = signalled_handover(c2, s2, input.engine_transition, now);
    let (c4, s4, request) = next_requested(c3, s3, input.gapless_enabled, h1 || h2, pos, dur);
    let (c5, s5, finished) = ran_out(c4, s4, input.engine_empty);
    (
        c5,
        s5,
        PollActions {
            take_stream_data: c.streaming && input.streaming_complete && !c.has_audio_data,
            handed_over: h1 || h2,
            requested_next: request,
            finished: finished,
        },
    )
}

/// What the thread does while not playing.
#[derive(Debug, Clone, Copy, PartialEq, Eq, Structural)]
pub enum IdleStep {
    /// Wait for the next command, however long it takes.
    AwaitCommand,
    /// Wait for a command, but no longer than the suspend deadline.
    AwaitDeadline,
    /// Release the output: stop the engine (when `stop_engine`), close the
    /// stream, and give the PipeWire clock back when bit-perfect was forced.
    Suspend { stop_engine: bool, reset_pipewire_clock: bool },
}

/// The idle step and the state it leaves: once the pause-suspend deadline
/// has passed, an open stream is released; a pending suspend without a
/// stream is dropped.
pub open spec fn idle_stepped(c: AudioControl, deadline_passed: bool, pw_force_bitperfect: bool) -> (
    AudioControl,
    IdleStep,
) {
    if !c.suspend_pending {
        (c, IdleStep::AwaitCommand)
    } else if !c.has_stream {
        (AudioControl { suspend_pending: false, ..c }, IdleStep::AwaitCommand)
    } else if deadline_passed {
        (
            AudioControl { has_engine: false, has_stream: false, suspend_pending: false, ..c },
            IdleStep::Suspend {
                stop_engine: c.has_engine,
                reset_pipewire_clock: pw_force_bitperfect,
            },
        )
    } else {
        (c, IdleStep::AwaitDeadline)
    }
}

impl AudioControl {
    /// A thread that has opened nothing yet, aimed at `device_name`.
    pub fn new(device_name: Option<String>) -> (r: Self)
        ensures
            r == idle_control(device_name),
    {
        AudioControl {
            device_name: device_name,
            has_stream: false,
            current_sample_rate: None,
            current_channels: None,
            has_engine: false,
            has_audio_data: false,
            streaming: false,
            consecutive_sink_failures: 0,
            suspend_pending: false,
            normalization_gain_bits: None,
            dynamic_gain: false,
            gapless_pending: None,
            gapless_request_armed: false,
        }
    }

    /// The format a stream is reopened at: the last one, else 48 kHz stereo.
    pub fn fallback_format(&self) -> (r: (u32, u16))
        ensures
            r == fallback_format(*self),
    {
        let rate = match self.current_sample_rate {
            Some(r) => r,
            None => FALLBACK_SAMPLE_RATE,
        };
        let channels = match self.current_channels {
            Some(n) => n,
            None => FALLBACK_CHANNELS,
        };
        (rate, channels)
    }

    /// A play command arrives for a track at `sample_rate` / `channels`.
    /// Returns what to do with the output stream; a replaced stream and its
    /// engine count as gone from here on.
    pub fn begin_play(
        &mut self,
        shared: &mut SharedState,
        kind: PlayKind,
        sample_rate: u32,
        channels: u16,
        dac_passthrough: bool,
        alsa_direct: bool,
    ) -> (plan: StreamPlan)
        ensures
            (*final(self), final(shared)@, plan) == play_begun(
                *old(self),
                old(shared)@,
                kind,
                sample_rate,
                channels,
                dac_passthrough,
                alsa_direct,
            ),
    {
        let format_changed = match (self.current_sample_rate, self.current_channels) {
            (Some(r), Some(n)) => r != sample_rate || n != channels,
            _ => true,
        };
        let plan = if !self.has_stream {
            StreamPlan::Open
        } else if (dac_passthrough || alsa_direct) && format_changed {
            StreamPlan::Replace { stop_engine: self.has_engine }
        } else {
            StreamPlan::Reuse
        };
        self.suspend_pending = false;
        match kind {
            PlayKind::File => {
                self.gapless_pending = None;
                self.gapless_request_armed = false;
                shared.set_gapless_ready(false);
                shared.set_gapless_next_track_id(0);
            },
            PlayKind::Streaming => {
                self.streaming = true;
                self.has_audio_data = false;
                shared.set_loaded_audio(true);
            },
        }
        match plan {
            StreamPlan::Replace { .. } => {
                self.has_engine = false;
                self.has_stream = false;
            },
            _ => {},
        }
        plan
    }

    /// The stream for a track opened at `sample_rate` / `channels`. A file
    /// play then names the output device in the shared state: the configured
    /// `output_device`, or "Default" when none is configured (a streaming
    /// play keeps the name its stream open gave).
    pub fn stream_opened(
        &mut self,
        shared: &mut SharedState,
        kind: PlayKind,
        sample_rate: u32,
        channels: u16,
        output_device: Option<String>,
    )
        ensures
            *final(self) == (AudioControl {
                has_stream: true,
                current_sample_rate: Some(sample_rate),
                current_channels: Some(channels),
                ..*old(self)
            }),
            kind == PlayKind::Streaming ==> final(shared)@ == (SharedView {
                stream_error: false,
                ..old(shared)@
            }),
            kind == PlayKind::File ==> final(shared)@ == (SharedView {
                stream_error: false,
                current_device: final(shared)@.current_device,
                ..old(shared)@
            }),
            kind == PlayKind::File ==> (final(shared)@.current_device matches Some(d) && d@ == match output_device {
                Some(o) => o@,
                None => "Default"@,
            }),
    {
        self.has_stream = true;
        self.current_sample_rate = Some(sample_rate);
        self.current_channels = Some(channels);
        shared.set_stream_error(false);
        if kind == PlayKind::File {
            let name = match output_device {
                Some(o) => o,
                None => String::from_str("Default"),
            };
            shared.set_current_device(Some(name));
        }
    }

    /// The stream for a track could not be opened: the command is given up
    /// with a stream error; a file play also forgets the output device.
    pub fn stream_open_failed(&self, shared: &mut SharedState, kind: PlayKind)
        ensures
            final(shared)@ == (if kind == PlayKind::File {
                SharedView { stream_error: true, current_device: None, ..old(shared)@ }
            } else {
                SharedView { stream_error: true, ..old(shared)@ }
            }),
    {
        shared.set_stream_error(true);
        if kind == PlayKind::File {
            shared.set_current_device(None);
        }
    }

    /// The stream is ready: the previous engine goes (the result says
    /// whether one was running), and a file play holds the new file in place
    /// of any download.
    pub fn load_source(&mut self, shared: &mut SharedState, kind: PlayKind) -> (stop_engine: bool)
        ensures
            stop_engine == old(self).has_engine,
            *final(self) == (if kind == PlayKind::File {
                AudioControl {
                    has_engine: false,
                    has_audio_data: true,
                    streaming: false,
                    ..*old(self)
                }
            } else {
                AudioControl { has_engine: false, ..*old(self) }
            }),
            final(shared)@ == (if kind == PlayKind::File {
                SharedView { has_loaded_audio: true, ..old(shared)@ }
            } else {
                old(shared)@
            }),
    {
        let stop_engine = self.has_engine;
        self.has_engine = false;
        if kind == PlayKind::File {
            self.has_audio_data = true;
            self.streaming = false;
            shared.set_loaded_audio(true);
        }
        stop_engine
    }

    /// An engine-creation attempt ended (`created` says how). A direct-ALSA
    /// engine cannot fail: a file play reports it as created, a streaming
    /// play does not report it at all.
    pub fn sink_result(&mut self, shared: &mut SharedState, kind: PlayKind, created: bool) -> (r: SinkOutcome)
        requires
            !created && kind == PlayKind::File ==> old(self).consecutive_sink_failures < u32::MAX,
        ensures
            (*final(self), final(shared)@, r) == sink_outcome(*old(self), old(shared)@, kind, created),
    {
        if created {
            self.consecutive_sink_failures = 0;
            shared.set_stream_error(false);
            return SinkOutcome::Ready;
        }
        if kind == PlayKind::Streaming {
            return SinkOutcome::Abort;
        }
        self.consecutive_sink_failures = self.consecutive_sink_failures + 1;
        if self.consecutive_sink_failures >= MAX_SINK_FAILURES {
            shared.set_stream_error(true);
            self.has_stream = false;
            let (sample_rate, channels) = self.fallback_format();
            SinkOutcome::Reopen { sample_rate, channels }
        } else {
            SinkOutcome::Abort
        }
    }

    /// The stream reopened after repeated engine failures (`opened` says
    /// whether it worked): on success the failure count and stream error are
    /// cleared, otherwise playback stops with no output device.
    pub fn sink_reopened(&mut self, shared: &mut SharedState, opened: bool)
        ensures
            *final(self) == (if opened {
                AudioControl { has_stream: true, consecutive_sink_failures: 0, ..*old(self) }
            } else {
                *old(self)
            }),
            final(shared)@ == (if opened {
                SharedView { stream_error: false, ..old(shared)@ }
            } else {
                SharedView { is_playing: false, current_device: None, ..old(shared)@ }
            }),
    {
        if opened {
            self.has_stream = true;
            self.consecutive_sink_failures = 0;
            shared.set_stream_error(false);
        } else {
            shared.set_playing(false);
            shared.set_current_device(None);
        }
    }

    /// The track is decoded: record its duration (`decoded_secs` when the
    /// decoder knows it, else `requested_secs`) and its normalization gain.
    pub fn prepare_track(
        &mut self,
        shared: &mut SharedState,
        decoded_secs: Option<u64>,
        requested_secs: u64,
        gain: Option<u32>,
        dynamic_gain: bool,
    )
        ensures
            (*final(self), final(shared)@) == track_prepared(
                *old(self),
                old(shared)@,
                decoded_secs,
                requested_secs,
                gain,
                dynamic_gain,
            ),
    {
        let duration = match decoded_secs {
            Some(d) => d,
            None => requested_secs,
        };
        shared.set_duration(duration);
        self.normalization_gain_bits = gain;
        self.dynamic_gain = dynamic_gain;
        let bits = match gain {
            Some(b) => b,
            None => 0,
        };
        shared.set_normalization_gain_bits(bits);
    }

    /// The engine plays `track_id` from the start, as of Unix time
    /// `now_millis`.
    pub fn start_track(&mut self, shared: &mut SharedState, track_id: u64, now_millis: u64)
        ensures
            (*final(self), final(shared)@) == track_started(*old(self), old(shared)@, track_id, now_millis),
    {
        shared.set_playing(true);
        shared.set_position(0);
        shared.set_current_track_id(track_id);
        shared.start_playback_timer_at(0, now_millis);
        self.has_engine = true;
    }

    /// Stop: drop the track, any queued track and the position.
    pub fn stop(&mut self, shared: &mut SharedState, pw_force_bitperfect: bool) -> (r: StopActions)
        ensures
            (*final(self), final(shared)@, r) == stopped(*old(self), old(shared)@, pw_force_bitperfect),
    {
        let stop_engine = self.has_engine;
        self.has_engine = false;
        self.has_audio_data = false;
        self.streaming = false;
        self.normalization_gain_bits = None;
        self.dynamic_gain = false;
        self.gapless_pending = None;
        self.gapless_request_armed = false;
        shared.set_gapless_ready(false);
        shared.set_gapless_next_track_id(0);
        shared.set_normalization_gain_bits(0);
        shared.set_playing(false);
        shared.set_position(0);
        shared.set_loaded_audio(false);
        shared.start_playback_timer_at(0, 0);
        self.suspend_pending = true;
        StopActions { stop_engine, reset_pipewire_clock: pw_force_bitperfect }
    }

    /// Pause at Unix time `now_millis`; returns whether to pause the engine.
    pub fn pause(&mut self, shared: &mut SharedState, now_millis: u64) -> (pause_engine: bool)
        requires
            old(shared)@.position_at_start <= position_start_bound(),
        ensures
            (*final(self), final(shared)@, pause_engine) == paused(*old(self), old(shared)@, now_millis),
    {
        if self.has_engine {
            shared.pause_playback_timer_at(now_millis);
            shared.set_playing(false);
            self.suspend_pending = true;
            true
        } else {
            false
        }
    }

    /// A resume arrives; `streaming_complete` says whether the current
    /// download (if any) has finished.
    pub fn plan_resume(&mut self, streaming_complete: bool) -> (plan: ResumePlan)
        ensures
            (*final(self), plan) == resume_planned(*old(self), streaming_complete),
    {
        let open = if self.has_stream {
            None
        } else {
            let (sample_rate, channels) = self.fallback_format();
            Some(StreamFormat { sample_rate, channels })
        };
        self.suspend_pending = false;
        if self.has_engine {
            ResumePlan::Continue
        } else if self.has_audio_data {
            ResumePlan::Rebuild { source: ResumeSource::AudioData, open_stream: open }
        } else if self.streaming && streaming_complete {
            self.has_audio_data = true;
            ResumePlan::Rebuild { source: ResumeSource::CompletedStream, open_stream: open }
        } else if self.streaming {
            ResumePlan::Refuse(ResumeRefusal::StreamIncomplete)
        } else {
            ResumePlan::Refuse(ResumeRefusal::NoAudioData)
        }
    }

    /// The stream asked for by a resume plan opened.
    pub fn resume_stream_opened(&mut self)
        ensures
            *final(self) == (AudioControl { has_stream: true, ..*old(self) }),
    {
        self.has_stream = true;
    }

    /// Playback resumed at Unix time `now_millis` from the stored position.
    pub fn resume(&mut self, shared: &mut SharedState, now_millis: u64)
        ensures
            (*final(self), final(shared)@) == resumed(*old(self), old(shared)@, now_millis),
    {
        let position = shared.position();
        shared.start_playback_timer_at(position, now_millis);
        shared.set_playing(true);
        self.has_engine = true;
    }

    /// A seek to `position` (s) arrives; see `seek_planned`.
    pub fn plan_seek(
        &mut self,
        shared: &mut SharedState,
        position: u64,
        streaming_complete: bool,
        seekable_secs: Option<u64>,
    ) -> (plan: SeekPlan)
        ensures
            (*final(self), final(shared)@, plan) == seek_planned(
                *old(self),
                old(shared)@,
                position,
                streaming_complete,
                seekable_secs,
            ),
    {
        self.suspend_pending = false;
        self.gapless_pending = None;
        self.gapless_request_armed = false;
        shared.set_gapless_ready(false);
        shared.set_gapless_next_track_id(0);
        if !self.has_audio_data && !self.streaming {
            return SeekPlan::Refuse(SeekRefusal::NoAudioData);
        }
        if self.streaming && !streaming_complete {
            match seekable_secs {
                None => {
                    return SeekPlan::Refuse(SeekRefusal::ProgressUnknown);
                },
                Some(limit) => {
                    if position > limit {
                        return SeekPlan::Refuse(SeekRefusal::PastBuffered);
                    }
                },
            }
        }
        if !self.has_stream {
            return SeekPlan::Refuse(SeekRefusal::NoDevice);
        }
        let stop_engine = self.has_engine;
        self.has_engine = false;
        SeekPlan::Rebuild { stop_engine, from_stream: self.streaming }
    }

    /// The new engine sits at `position` (s), at Unix time `now_millis`;
    /// returns whether to pause it (playback was paused).
    pub fn finish_seek(&mut self, shared: &mut SharedState, position: u64, now_millis: u64) -> (pause_engine: bool)
        ensures
            (*final(self), final(shared)@, pause_engine) == seeked(
                *old(self),
                old(shared)@,
                position,
                now_millis,
            ),
    {
        let was_playing = shared.is_playing();
        shared.set_position(position);
        if was_playing {
            shared.start_playback_timer_at(position, now_millis);
        }
        self.has_engine = true;
        !was_playing
    }

    /// Switch to `device_name`: release the engine and the stream.
    pub fn begin_device_reinit(&mut self, device_name: Option<String>) -> (plan: ReinitPlan)
        ensures
            (*final(self), plan) == reinit_begun(*old(self), device_name),
    {
        let (sample_rate, channels) = self.fallback_format();
        let stop_engine = self.has_engine;
        self.suspend_pending = false;
        self.has_engine = false;
        self.has_stream = false;
        self.device_name = device_name;
        ReinitPlan { stop_engine, sample_rate, channels }
    }

    /// The new device was tried (`opened` says whether it worked), at Unix
    /// time `now_millis`.
    pub fn finish_device_reinit(&mut self, shared: &mut SharedState, opened: bool, now_millis: u64)
        requires
            old(shared)@.position_at_start <= position_start_bound(),
        ensures
            (*final(self), final(shared)@) == reinit_done(*old(self), old(shared)@, opened, now_millis),
    {
        if opened {
            self.has_stream = true;
            self.consecutive_sink_failures = 0;
        }
        shared.pause_playback_timer_at(now_millis);
        shared.set_playing(false);
    }

    /// A next track at `sample_rate` / `channels` is offered for a gapless
    /// hand-over. A refusal answers the request at once.
    pub fn check_play_next(&self, shared: &mut SharedState, sample_rate: u32, channels: u16) -> (r: Option<PlayNextRefusal>)
        ensures
            r == play_next_refusal(*self, sample_rate, channels),
            final(shared)@ == (if r is Some {
                SharedView { gapless_ready: false, ..old(shared)@ }
            } else {
                old(shared)@
            }),
    {
        let refusal = if !self.has_engine {
            Some(PlayNextRefusal::NoEngine)
        } else {
            let mismatch = match (self.current_sample_rate, self.current_channels) {
                (Some(r), Some(n)) => r != sample_rate || n != channels,
                _ => false,
            };
            if mismatch {
                Some(PlayNextRefusal::FormatMismatch)
            } else if self.streaming {
                Some(PlayNextRefusal::Streaming)
            } else {
                None
            }
        };
        if refusal.is_some() {
            shared.set_gapless_ready(false);
        }
        refusal
    }

    /// The next track was appended (`queued`), or decoding or appending it
    /// failed (`None`).
    pub fn finish_play_next(&mut self, shared: &mut SharedState, queued: Option<PendingTrack>)
        ensures
            (*final(self), final(shared)@) == play_next_done(*old(self), old(shared)@, queued),
    {
        match queued {
            Some(p) => {
                self.gapless_pending = Some(p);
                shared.set_gapless_next_track_id(p.track_id);
                shared.set_gapless_ready(false);
            },
            None => {
                shared.set_gapless_ready(false);
            },
        }
    }

    /// The queued track `p` takes over at Unix time `now_millis`.
    fn hand_over(&mut self, shared: &mut SharedState, p: PendingTrack, now_millis: u64)
        ensures
            *final(self) == handover_control(*old(self), p),
            final(shared)@ == handover_shared(old(shared)@, p, now_millis),
    {
        shared.set_gapless_next_track_id(0);
        shared.set_gapless_ready(false);
        shared.set_current_track_id(p.track_id);
        shared.set_duration(p.duration_secs);
        shared.start_playback_timer_at(0, now_millis);
        self.has_audio_data = true;
        self.normalization_gain_bits = p.normalization_gain_bits;
        let bits = match p.normalization_gain_bits {
            Some(b) => b,
            None => 0,
        };
        shared.set_normalization_gain_bits(bits);
        self.gapless_pending = None;
        self.gapless_request_armed = false;
    }

    fn promote(&mut self, shared: &mut SharedState, input: PollInput)
        ensures
            (*final(self), final(shared)@) == promoted(*old(self), old(shared)@, input),
    {
        shared.set_buffer_progress_bits(if self.streaming { input.progress_bits } else { 0 });
        if self.streaming && input.streaming_complete {
            self.streaming = false;
            self.has_audio_data = true;
        }
    }

    fn handover_at_position(&mut self, shared: &mut SharedState, pos: u64, dur: u64, now_millis: u64) -> (r: bool)
        ensures
            (*final(self), final(shared)@, r) == position_handover(*old(self), old(shared)@, pos, dur, now_millis),
    {
        match self.gapless_pending {
            Some(p) => {
                if dur > 0 && pos >= dur {
                    self.hand_over(shared, p, now_millis);
                    true
                } else {
                    false
                }
            },
            None => false,
        }
    }

    fn handover_on_signal(&mut self, shared: &mut SharedState, engine_transition: bool, now_millis: u64) -> (r: bool)
        ensures
            (*final(self), final(shared)@, r) == signalled_handover(*old(self), old(shared)@, engine_transition, now_millis),
    {
        if self.has_engine && engine_transition {
            match self.gapless_pending {
                Some(p) => {
                    self.hand_over(shared, p, now_millis);
                    true
                },
                None => false,
            }
        } else {
            false
        }
    }

    fn request_next(
        &mut self,
        shared: &mut SharedState,
        gapless_enabled: bool,
        handed_over: bool,
        pos: u64,
        dur: u64,
    ) -> (r: bool)
        ensures
            (*final(self), final(shared)@, r) == next_requested(*old(self), old(shared)@, gapless_enabled, handed_over, pos, dur),
    {
        let near_end = dur <= GAPLESS_LEAD_SECS || pos >= dur - GAPLESS_LEAD_SECS;
        let request = gapless_enabled && !handed_over && dur > 0 && near_end
            && self.gapless_pending.is_none() && !self.gapless_request_armed
            && !shared.is_gapless_ready() && shared.get_gapless_next_track_id() == 0
            && !self.streaming;
        if request {
            shared.set_gapless_ready(true);
            self.gapless_request_armed = true;
        }
        request
    }

    fn check_ran_out(&mut self, shared: &mut SharedState, engine_empty: bool) -> (r: bool)
        ensures
            (*final(self), final(shared)@, r) == ran_out(*old(self), old(shared)@, engine_empty),
    {
        let finished = self.has_engine && engine_empty && shared.is_playing();
        if finished {
            shared.set_playing(false);
            let duration = shared.duration();
            shared.set_position(duration);
            shared.clear_playback_start();
            shared.set_gapless_ready(false);
            shared.set_gapless_next_track_id(0);
            self.gapless_pending = None;
            self.gapless_request_armed = false;
        }
        finished
    }

    /// The periodic poll while playing, at Unix time `now_millis`; see
    /// `polled`.
    pub fn poll(&mut self, shared: &mut SharedState, input: PollInput, now_millis: u64) -> (r: PollActions)
        requires
            old(shared)@.position_at_start <= position_start_bound(),
        ensures
            (*final(self), final(shared)@, r) == polled(*old(self), old(shared)@, input, now_millis),
    {
        let take_stream_data = self.streaming && input.streaming_complete && !self.has_audio_data;
        self.promote(shared, input);
        let pos = shared.position_at(now_millis);
        let dur = shared.duration();
        let h1 = self.handover_at_position(shared, pos, dur, now_millis);
        let h2 = self.handover_on_signal(shared, input.engine_transition, now_millis);
        let requested_next = self.request_next(shared, input.gapless_enabled, h1 || h2, pos, dur);
        let finished = self.check_ran_out(shared, input.engine_empty);
        PollActions { take_stream_data, handed_over: h1 || h2, requested_next, finished }
    }

    /// One step while not playing; `deadline_passed` says whether the
    /// pause-suspend delay has run out.
    pub fn idle_step(&mut self, deadline_passed: bool, pw_force_bitperfect: bool) -> (r: IdleStep)
        ensures
            (*final(self), r) == idle_stepped(*old(self), deadline_passed, pw_force_bitperfect),
    {
        if !self.suspend_pending {
            return IdleStep::AwaitCommand;
        }
        if !self.has_stream {
            self.suspend_pending = false;
            return IdleStep::AwaitCommand;
        }
        if deadline_passed {
            let stop_engine = self.has_engine;
            self.has_engine = false;
            self.has_stream = false;
            self.suspend_pending = false;
            IdleStep::Suspend { stop_engine, reset_pipewire_clock: pw_force_bitperfect }
        } else {
            IdleStep::AwaitDeadline
        }
    }
}


/// A track queued for a gapless hand-over takes over at the poll where the
/// position reaches the (non-zero) duration: it becomes the current track
/// with its own duration, the queue slot and the announcement are cleared,
/// and no further track is requested at that poll.
pub proof fn lemma_queued_track_takes_over_at_end(
    c: AudioControl,
    s: SharedView,
    p: PendingTrack,
    input: PollInput,
    now: u64,
)
    requires
        c.gapless_pending == Some(p),
        s.duration > 0,
        position_at(s, now) >= s.duration,
    ensures
        polled(c, s, input, now).1.current_track_id == p.track_id,
        polled(c, s, input, now).1.duration == p.duration_secs,
        polled(c, s, input, now).0.gapless_pending is None,
        polled(c, s, input, now).1.gapless_next_track_id == 0,
        polled(c, s, input, now).2.handed_over,
        !polled(c, s, input, now).2.requested_next,
{
    let (c1, s1) = promoted(c, s, input);
    assert(position_at(s1, now) == position_at(s, now));
}

/// While a track keeps playing, the next track is requested from the front
/// end at most once: a poll after the one that asked does not ask again.
pub proof fn lemma_next_track_requested_once(
    c: AudioControl,
    s: SharedView,
    first: PollInput,
    t1: u64,
    second: PollInput,
    t2: u64,
)
    requires
        polled(c, s, first, t1).2.requested_next,
        polled(c, s, first, t1).1.is_playing,
    ensures
        !polled(polled(c, s, first, t1).0, polled(c, s, first, t1).1, second, t2).2.requested_next,
{
}

/// Engine creation for a file that fails three times in a row (from a clean
/// count) gives up twice, then releases the stream, flags a stream error and
/// asks for a reopen at the last known format (48 kHz stereo if none).
pub proof fn lemma_third_engine_failure_reopens(c: AudioControl, s: SharedView)
    requires
        c.consecutive_sink_failures == 0,
    ensures
        ({
            let (c1, s1, o1) = sink_outcome(c, s, PlayKind::File, false);
            let (c2, s2, o2) = sink_outcome(c1, s1, PlayKind::File, false);
            let (c3, s3, o3) = sink_outcome(c2, s2, PlayKind::File, false);
            &&& o1 == SinkOutcome::Abort
            &&& o2 == SinkOutcome::Abort
            &&& o3 == (SinkOutcome::Reopen {
                sample_rate: fallback_format(c).0,
                channels: fallback_format(c).1,
            })
            &&& !c3.has_stream
            &&& s3.stream_error
        }),
{
}

/// Resuming after a pause goes on from the position the pause kept: the
/// timer restarts at the position reached at the pause.
pub proof fn lemma_resume_continues_from_pause(c: AudioControl, s: SharedView, t1: u64, t2: u64)
    requires
        c.has_engine,
    ensures
        ({
            let (c1, s1, _) = paused(c, s, t1);
            let (c2, s2) = resumed(c1, s1, t2);
            &&& s2.is_playing
            &&& s2.position_at_start == position_at(s, t1)
            &&& s2.playback_start_millis == t2
        }),
{
}

/// A stop keeps the output stream open, so a play that follows at the same
/// format (or at any format, when the output need not follow the track's
/// format) reuses it instead of reopening the device.
pub proof fn lemma_play_after_stop_reuses_stream(
    c: AudioControl,
    s: SharedView,
    pw_force_bitperfect: bool,
    kind: PlayKind,
    sample_rate: u32,
    channels: u16,
    dac_passthrough: bool,
    alsa_direct: bool,
)
    requires
        c.has_stream,
        (c.current_sample_rate == Some(sample_rate) && c.current_channels == Some(channels))
            || !(dac_passthrough || alsa_direct),
    ensures
        ({
            let (c1, s1, _) = stopped(c, s, pw_force_bitperfect);
            play_begun(c1, s1, kind, sample_rate, channels, dac_passthrough, alsa_direct).2
                == StreamPlan::Reuse
        }),
{
}

} // verus!
