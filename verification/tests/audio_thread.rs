use qbz::audio_thread::{
    AudioControl, IdleStep, PendingTrack, PlayKind, PlayNextRefusal, PollInput, ResumePlan,
    ResumeRefusal, ResumeSource, SeekPlan, SeekRefusal, SinkOutcome, StreamFormat, StreamPlan,
};
use qbz::shared_state::SharedState;

fn quiet_poll(gapless_enabled: bool) -> PollInput {
    PollInput {
        streaming_complete: false,
        progress_bits: 0,
        engine_transition: false,
        engine_empty: false,
        gapless_enabled,
    }
}

/// Plays a file track end to end: stream opened, engine created, decoded.
fn play_file(
    c: &mut AudioControl,
    shared: &mut SharedState,
    track_id: u64,
    duration: u64,
    rate: u32,
    now: u64,
) {
    let plan = c.begin_play(shared, PlayKind::File, rate, 2, false, false);
    if plan != StreamPlan::Reuse {
        c.stream_opened(shared, PlayKind::File, rate, 2, None);
    }
    c.load_source(shared, PlayKind::File);
    assert_eq!(c.sink_result(shared, PlayKind::File, true), SinkOutcome::Ready);
    c.prepare_track(shared, Some(duration), duration, None, false);
    c.start_track(shared, track_id, now);
}

#[test]
fn first_play_opens_a_stream_and_the_next_reuses_it() {
    let mut c = AudioControl::new(None);
    let mut shared = SharedState::new();
    assert_eq!(
        c.begin_play(&mut shared, PlayKind::File, 44100, 2, false, false),
        StreamPlan::Open
    );
    c.stream_opened(&mut shared, PlayKind::File, 44100, 2, None);
    assert_eq!(shared.current_device(), Some("Default".to_string()));
    assert!(!c.load_source(&mut shared, PlayKind::File));
    assert!(shared.has_loaded_audio());
    assert_eq!(c.sink_result(&mut shared, PlayKind::File, true), SinkOutcome::Ready);
    c.prepare_track(&mut shared, None, 180, Some(0x3f80_0000), false);
    assert_eq!(shared.duration(), 180);
    assert_eq!(shared.normalization_gain_bits(), 0x3f80_0000);
    c.start_track(&mut shared, 11, 5_000);
    assert!(shared.is_playing());
    assert_eq!(shared.current_track_id(), 11);
    assert_eq!(shared.position_at(65_000), 60);

    // a new rate on a shared (non-passthrough) output reuses the stream
    assert_eq!(
        c.begin_play(&mut shared, PlayKind::File, 96000, 2, false, false),
        StreamPlan::Reuse
    );
    assert!(c.load_source(&mut shared, PlayKind::File));
    assert!(!c.has_engine);
}

#[test]
fn passthrough_format_change_replaces_the_stream() {
    let mut c = AudioControl::new(None);
    let mut shared = SharedState::new();
    play_file(&mut c, &mut shared, 1, 200, 44100, 1_000);
    assert_eq!(
        c.begin_play(&mut shared, PlayKind::File, 96000, 2, true, false),
        StreamPlan::Replace { stop_engine: true }
    );
    assert!(!c.has_stream);
    assert!(!c.has_engine);
    c.stream_opened(&mut shared, PlayKind::File, 96000, 2, Some("hw:2,0".to_string()));
    assert_eq!(shared.current_device(), Some("hw:2,0".to_string()));
    assert_eq!(c.current_sample_rate, Some(96000));
    // same format again: reused even in passthrough
    assert_eq!(
        c.begin_play(&mut shared, PlayKind::File, 96000, 2, false, true),
        StreamPlan::Reuse
    );
}

#[test]
fn failed_stream_open_flags_an_error() {
    let mut c = AudioControl::new(None);
    let mut shared = SharedState::new();
    shared.set_current_device(Some("hw:1,0".to_string()));
    c.begin_play(&mut shared, PlayKind::File, 44100, 2, false, false);
    c.stream_open_failed(&mut shared, PlayKind::File);
    assert!(shared.has_stream_error());
    assert_eq!(shared.current_device(), None);

    let mut shared2 = SharedState::new();
    shared2.set_current_device(Some("hw:1,0".to_string()));
    c.stream_open_failed(&mut shared2, PlayKind::Streaming);
    assert!(shared2.has_stream_error());
    assert_eq!(shared2.current_device(), Some("hw:1,0".to_string()));
}

#[test]
fn third_engine_failure_reopens_the_stream() {
    let mut c = AudioControl::new(None);
    let mut shared = SharedState::new();
    c.begin_play(&mut shared, PlayKind::File, 88200, 2, false, false);
    c.stream_opened(&mut shared, PlayKind::File, 88200, 2, None);
    assert_eq!(c.sink_result(&mut shared, PlayKind::File, false), SinkOutcome::Abort);
    assert_eq!(c.sink_result(&mut shared, PlayKind::File, false), SinkOutcome::Abort);
    assert_eq!(
        c.sink_result(&mut shared, PlayKind::File, false),
        SinkOutcome::Reopen { sample_rate: 88200, channels: 2 }
    );
    assert!(!c.has_stream);
    assert!(shared.has_stream_error());
    c.sink_reopened(&mut shared, true);
    assert!(c.has_stream);
    assert_eq!(c.consecutive_sink_failures, 0);
    assert!(!shared.has_stream_error());
}

#[test]
fn failed_reopen_stops_playback() {
    let mut c = AudioControl::new(None);
    let mut shared = SharedState::new();
    c.consecutive_sink_failures = 2;
    assert_eq!(
        c.sink_result(&mut shared, PlayKind::File, false),
        SinkOutcome::Reopen { sample_rate: 48000, channels: 2 }
    );
    shared.set_playing(true);
    shared.set_current_device(Some("Default".to_string()));
    c.sink_reopened(&mut shared, false);
    assert!(!shared.is_playing());
    assert_eq!(shared.current_device(), None);
    assert_eq!(c.consecutive_sink_failures, 3);
}

#[test]
fn streaming_engine_failure_is_not_counted() {
    let mut c = AudioControl::new(None);
    let mut shared = SharedState::new();
    assert_eq!(c.sink_result(&mut shared, PlayKind::Streaming, false), SinkOutcome::Abort);
    assert_eq!(c.consecutive_sink_failures, 0);
}

#[test]
fn streaming_play_switches_the_source() {
    let mut c = AudioControl::new(None);
    let mut shared = SharedState::new();
    play_file(&mut c, &mut shared, 1, 200, 44100, 1_000);
    c.gapless_request_armed = true;
    let plan = c.begin_play(&mut shared, PlayKind::Streaming, 44100, 2, false, false);
    assert_eq!(plan, StreamPlan::Reuse);
    assert!(c.streaming);
    assert!(!c.has_audio_data);
    // a streaming play leaves the gapless request as it was
    assert!(c.gapless_request_armed);
    assert!(c.load_source(&mut shared, PlayKind::Streaming));
    assert!(c.streaming);
}

#[test]
fn queued_track_takes_over_at_track_end() {
    let mut c = AudioControl::new(None);
    let mut shared = SharedState::new();
    play_file(&mut c, &mut shared, 7, 200, 44100, 1_000);
    assert_eq!(c.check_play_next(&mut shared, 44100, 2), None);
    let next = PendingTrack { track_id: 8, duration_secs: 150, normalization_gain_bits: Some(0x3f00_0000) };
    c.finish_play_next(&mut shared, Some(next));
    assert_eq!(shared.get_gapless_next_track_id(), 8);

    // not yet at the end
    let a = c.poll(&mut shared, quiet_poll(true), 150_000);
    assert!(!a.handed_over);
    assert_eq!(shared.current_track_id(), 7);

    let a = c.poll(&mut shared, quiet_poll(true), 201_000);
    assert!(a.handed_over);
    assert!(!a.requested_next);
    assert_eq!(shared.current_track_id(), 8);
    assert_eq!(shared.duration(), 150);
    assert_eq!(shared.get_gapless_next_track_id(), 0);
    assert_eq!(shared.normalization_gain_bits(), 0x3f00_0000);
    assert_eq!(c.gapless_pending, None);
    assert_eq!(shared.position_at(211_000), 10);
}

#[test]
fn engine_signal_hands_over_the_queued_track() {
    let mut c = AudioControl::new(None);
    let mut shared = SharedState::new();
    play_file(&mut c, &mut shared, 7, 200, 44100, 1_000);
    c.finish_play_next(
        &mut shared,
        Some(PendingTrack { track_id: 9, duration_secs: 90, normalization_gain_bits: None }),
    );
    let mut input = quiet_poll(false);
    input.engine_transition = true;
    let a = c.poll(&mut shared, input, 50_000);
    assert!(a.handed_over);
    assert_eq!(shared.current_track_id(), 9);
    assert_eq!(shared.duration(), 90);
}

#[test]
fn next_track_is_requested_once_near_the_end() {
    let mut c = AudioControl::new(None);
    let mut shared = SharedState::new();
    play_file(&mut c, &mut shared, 3, 100, 44100, 1_000);
    // 80 s in: too early
    assert!(!c.poll(&mut shared, quiet_poll(true), 81_000).requested_next);
    // 90 s in: within the 10 s lead
    let a = c.poll(&mut shared, quiet_poll(true), 91_000);
    assert!(a.requested_next);
    assert!(shared.is_gapless_ready());
    // asked once only
    assert!(!c.poll(&mut shared, quiet_poll(true), 95_000).requested_next);
    assert!(!c.poll(&mut shared, quiet_poll(true), 99_000).requested_next);
}

#[test]
fn no_request_without_gapless_or_while_streaming() {
    let mut c = AudioControl::new(None);
    let mut shared = SharedState::new();
    play_file(&mut c, &mut shared, 3, 100, 44100, 1_000);
    assert!(!c.poll(&mut shared, quiet_poll(false), 95_000).requested_next);
    c.streaming = true;
    assert!(!c.poll(&mut shared, quiet_poll(true), 95_000).requested_next);
}

#[test]
fn track_runs_out_when_the_engine_is_empty() {
    let mut c = AudioControl::new(None);
    let mut shared = SharedState::new();
    play_file(&mut c, &mut shared, 3, 100, 44100, 1_000);
    c.gapless_request_armed = true;
    let mut input = quiet_poll(false);
    input.engine_empty = true;
    let a = c.poll(&mut shared, input, 60_000);
    assert!(a.finished);
    assert!(!shared.is_playing());
    assert_eq!(shared.position(), 100);
    assert!(!c.gapless_request_armed);
}

#[test]
fn finished_download_becomes_the_held_file() {
    let mut c = AudioControl::new(None);
    let mut shared = SharedState::new();
    c.begin_play(&mut shared, PlayKind::Streaming, 44100, 2, false, false);
    shared.set_current_device(Some("pipewire".to_string()));
    c.stream_opened(&mut shared, PlayKind::Streaming, 44100, 2, Some("other".to_string()));
    assert_eq!(shared.current_device(), Some("pipewire".to_string()));
    c.load_source(&mut shared, PlayKind::Streaming);
    c.sink_result(&mut shared, PlayKind::Streaming, true);
    c.prepare_track(&mut shared, None, 240, None, false);
    c.start_track(&mut shared, 5, 1_000);

    let mut input = quiet_poll(true);
    input.progress_bits = 0x3f00_0000;
    let a = c.poll(&mut shared, input, 10_000);
    assert!(!a.take_stream_data);
    assert_eq!(shared.buffer_progress_bits(), 0x3f00_0000);
    assert!(c.streaming);

    input.streaming_complete = true;
    input.progress_bits = 0x3f80_0000;
    let a = c.poll(&mut shared, input, 20_000);
    assert!(a.take_stream_data);
    assert!(!c.streaming);
    assert!(c.has_audio_data);
    assert_eq!(shared.buffer_progress_bits(), 0x3f80_0000);

    let a = c.poll(&mut shared, input, 30_000);
    assert!(!a.take_stream_data);
    assert_eq!(shared.buffer_progress_bits(), 0);
}

#[test]
fn stop_resets_playback_and_keeps_the_stream() {
    let mut c = AudioControl::new(None);
    let mut shared = SharedState::new();
    play_file(&mut c, &mut shared, 3, 100, 44100, 1_000);
    c.finish_play_next(
        &mut shared,
        Some(PendingTrack { track_id: 4, duration_secs: 90, normalization_gain_bits: None }),
    );
    let actions = c.stop(&mut shared, true);
    assert!(actions.stop_engine);
    assert!(actions.reset_pipewire_clock);
    assert!(!shared.is_playing());
    assert_eq!(shared.position(), 0);
    assert!(!shared.has_loaded_audio());
    assert_eq!(shared.get_gapless_next_track_id(), 0);
    assert_eq!(c.gapless_pending, None);
    assert!(!c.has_engine);
    assert!(!c.has_audio_data);
    assert!(c.suspend_pending);
    assert!(c.has_stream);
    assert_eq!(shared.position_at(500_000), 0);

    assert_eq!(
        c.begin_play(&mut shared, PlayKind::File, 44100, 2, true, true),
        StreamPlan::Reuse
    );
}

#[test]
fn resume_goes_on_from_the_pause() {
    let mut c = AudioControl::new(None);
    let mut shared = SharedState::new();
    play_file(&mut c, &mut shared, 3, 300, 44100, 1_000);
    assert!(c.pause(&mut shared, 61_500));
    assert!(!shared.is_playing());
    assert_eq!(shared.position(), 60);
    assert!(c.suspend_pending);
    assert_eq!(c.plan_resume(false), ResumePlan::Continue);
    assert!(!c.suspend_pending);
    c.resume(&mut shared, 500_000);
    assert!(shared.is_playing());
    assert_eq!(shared.position_at(510_000), 70);
}

#[test]
fn pause_without_engine_does_nothing() {
    let mut c = AudioControl::new(None);
    let mut shared = SharedState::new();
    assert!(!c.pause(&mut shared, 1_000));
    assert!(!c.suspend_pending);
}

#[test]
fn resume_rebuilds_after_suspend() {
    let mut c = AudioControl::new(None);
    let mut shared = SharedState::new();
    play_file(&mut c, &mut shared, 3, 300, 44100, 1_000);
    c.pause(&mut shared, 31_000);
    assert_eq!(c.idle_step(false, false), IdleStep::AwaitDeadline);
    assert!(c.has_stream);
    assert_eq!(
        c.idle_step(true, true),
        IdleStep::Suspend { stop_engine: true, reset_pipewire_clock: true }
    );
    assert!(!c.has_stream);
    assert_eq!(c.idle_step(true, false), IdleStep::AwaitCommand);
    assert_eq!(
        c.plan_resume(false),
        ResumePlan::Rebuild {
            source: ResumeSource::AudioData,
            open_stream: Some(StreamFormat { sample_rate: 44100, channels: 2 }),
        }
    );
    c.resume_stream_opened();
    c.resume(&mut shared, 100_000);
    assert!(c.has_engine);
    assert_eq!(shared.position_at(100_000), 30);
}

#[test]
fn resume_refusals_and_completed_download() {
    let mut c = AudioControl::new(None);
    assert_eq!(c.plan_resume(true), ResumePlan::Refuse(ResumeRefusal::NoAudioData));
    c.streaming = true;
    assert_eq!(c.plan_resume(false), ResumePlan::Refuse(ResumeRefusal::StreamIncomplete));
    c.has_stream = true;
    assert_eq!(
        c.plan_resume(true),
        ResumePlan::Rebuild { source: ResumeSource::CompletedStream, open_stream: None }
    );
    assert!(c.has_audio_data);
}

#[test]
fn idle_without_stream_drops_the_suspend() {
    let mut c = AudioControl::new(None);
    assert_eq!(c.idle_step(true, false), IdleStep::AwaitCommand);
    c.suspend_pending = true;
    assert_eq!(c.idle_step(false, false), IdleStep::AwaitCommand);
    assert!(!c.suspend_pending);
}

#[test]
fn seek_plans_and_refusals() {
    let mut c = AudioControl::new(None);
    let mut shared = SharedState::new();
    assert_eq!(
        c.plan_seek(&mut shared, 10, false, None),
        SeekPlan::Refuse(SeekRefusal::NoAudioData)
    );
    c.streaming = true;
    assert_eq!(
        c.plan_seek(&mut shared, 10, false, None),
        SeekPlan::Refuse(SeekRefusal::ProgressUnknown)
    );
    assert_eq!(
        c.plan_seek(&mut shared, 40, false, Some(30)),
        SeekPlan::Refuse(SeekRefusal::PastBuffered)
    );
    assert_eq!(
        c.plan_seek(&mut shared, 20, false, Some(30)),
        SeekPlan::Refuse(SeekRefusal::NoDevice)
    );
    c.has_stream = true;
    c.has_engine = true;
    assert_eq!(
        c.plan_seek(&mut shared, 20, false, Some(30)),
        SeekPlan::Rebuild { stop_engine: true, from_stream: true }
    );
    assert!(!c.has_engine);
    // a finished download seeks anywhere
    assert_eq!(
        c.plan_seek(&mut shared, 500, true, None),
        SeekPlan::Rebuild { stop_engine: false, from_stream: true }
    );
}

#[test]
fn seek_drops_the_queued_track_and_keeps_play_state() {
    let mut c = AudioControl::new(None);
    let mut shared = SharedState::new();
    play_file(&mut c, &mut shared, 3, 300, 44100, 1_000);
    c.finish_play_next(
        &mut shared,
        Some(PendingTrack { track_id: 4, duration_secs: 90, normalization_gain_bits: None }),
    );
    assert_eq!(
        c.plan_seek(&mut shared, 120, true, None),
        SeekPlan::Rebuild { stop_engine: true, from_stream: false }
    );
    assert_eq!(c.gapless_pending, None);
    assert_eq!(shared.get_gapless_next_track_id(), 0);
    assert!(!c.finish_seek(&mut shared, 120, 50_000));
    assert_eq!(shared.position_at(60_000), 130);

    c.pause(&mut shared, 60_000);
    c.plan_seek(&mut shared, 200, true, None);
    assert!(c.finish_seek(&mut shared, 200, 70_000));
    assert!(!shared.is_playing());
    assert_eq!(shared.position_at(90_000), 200);
}

#[test]
fn device_reinit_pauses_at_the_current_position() {
    let mut c = AudioControl::new(Some("old".to_string()));
    let mut shared = SharedState::new();
    play_file(&mut c, &mut shared, 3, 300, 96000, 1_000);
    let plan = c.begin_device_reinit(Some("hw:2,0".to_string()));
    assert!(plan.stop_engine);
    assert_eq!(plan.sample_rate, 96000);
    assert_eq!(plan.channels, 2);
    assert!(!c.has_stream);
    assert_eq!(c.device_name, Some("hw:2,0".to_string()));
    c.consecutive_sink_failures = 2;
    c.finish_device_reinit(&mut shared, true, 41_000);
    assert!(c.has_stream);
    assert_eq!(c.consecutive_sink_failures, 0);
    assert!(!shared.is_playing());
    assert_eq!(shared.position(), 40);
}

#[test]
fn play_next_refusals() {
    let mut c = AudioControl::new(None);
    let mut shared = SharedState::new();
    shared.set_gapless_ready(true);
    assert_eq!(c.check_play_next(&mut shared, 44100, 2), Some(PlayNextRefusal::NoEngine));
    assert!(!shared.is_gapless_ready());
    play_file(&mut c, &mut shared, 3, 300, 44100, 1_000);
    assert_eq!(
        c.check_play_next(&mut shared, 48000, 2),
        Some(PlayNextRefusal::FormatMismatch)
    );
    c.streaming = true;
    assert_eq!(c.check_play_next(&mut shared, 44100, 2), Some(PlayNextRefusal::Streaming));
    c.streaming = false;
    shared.set_gapless_ready(true);
    assert_eq!(c.check_play_next(&mut shared, 44100, 2), None);
    assert!(shared.is_gapless_ready());
    c.finish_play_next(&mut shared, None);
    assert!(!shared.is_gapless_ready());
    assert_eq!(c.gapless_pending, None);
}

#[test]
fn fallback_format_defaults_to_48k_stereo() {
    let c = AudioControl::new(None);
    assert_eq!(c.fallback_format(), (48000, 2));
}
