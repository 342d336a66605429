//! Verified core of the qbz music player: the playback queue, the streaming
//! buffer, the CMAF segment parser, ALSA/PipeWire device-id logic and the
//! shared playback state.

pub mod models;
pub mod playback;
pub mod queue;
pub mod shuffle;
pub mod cmaf;
pub mod shared_state;
pub mod streaming;
pub mod text;
pub mod library;
pub mod reservation;
pub mod alsa_ids;
pub mod coreaudio;
pub mod ring_buffer;
pub mod audio_device;
pub mod pipewire;
pub mod alsa_devices;
pub mod audio_thread;
pub mod engine_queue;
