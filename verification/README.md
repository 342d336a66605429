# qbz

The core of a hi-fi music player, written in Verus: every function in `src/`
carries a contract that the verifier proves.

## Layout

- `src/queue.rs`, `src/shuffle.rs`, `src/playback.rs` — the play queue:
  adding, removing and moving tracks, shuffle orders, repeat modes, history,
  the "stop after this track" marker, and the snapshot the front end shows.
- `src/audio_thread.rs`, `src/shared_state.rs`, `src/engine_queue.rs` — the
  decisions of the audio thread (which stream to open or reuse, engine
  failures, pause/resume/seek, gapless hand-over, suspending an idle
  device), the playback state it shares with the front end, and the source
  queue of the direct-ALSA engine.
- `src/streaming.rs` — the buffer a download fills while the decoder reads.
- `src/cmaf.rs` — the parser for the init and media segments of CMAF streams.
- `src/alsa_ids.rs`, `src/alsa_devices.rs`, `src/pipewire.rs`,
  `src/reservation.rs`, `src/coreaudio.rs`, `src/audio_device.rs` — output
  devices: stable ALSA ids, `/proc/asound` parsing, supported rates,
  PipeWire sink listings and device choice, device reservation.
- `src/models.rs`, `src/library.rs` — the records exchanged with the service
  and the local library, and the custom-order moves of playlists.
- `src/ring_buffer.rs` — the sample ring of the visualizer.
- `src/text.rs` — the character-level text helpers the parsers share.
- `app/` — what the verifier does not see: reading `/proc`, running `pactl`,
  threads and locks around the streaming buffer, serde copies of the
  records, and the floating-point loudness maths.
- `tests/` — tests of the library, run against the compiled crate.
