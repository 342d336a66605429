use qbz::pipewire::{
    config_supports, effective_stream_rate, enumerate_pipewire_sinks, get_alsa_card_for_sink, needs_rate_reapply,
    parse_pipewire_clock_rate, pick_pipewire_device, pipewire_device_score, stream_buffer_frames,
};

const SINKS: &str = "Sink #47\n\
\tState: SUSPENDED\n\
\tName: alsa_output.pci-0000_00_1f.3.analog-stereo\n\
\tDescription: Built-in Audio Analog Stereo\n\
\tDriver: PipeWire\n\
\tSample Specification: s32le 2ch 48000Hz\n\
\tFlags: HARDWARE HW_MUTE_CTRL HW_VOLUME_CTRL DECIBEL_VOLUME LATENCY\n\
\tProperties:\n\
\t\talsa.card = \"0\"\n\
\t\tdevice.bus = \"pci\"\n\
Sink #52\n\
\tState: RUNNING\n\
\tName: alsa_output.usb-Cambridge_Audio-00.analog-stereo\n\
\tDescription: Cambridge Audio USB\n\
\tSample Specification: s32le 2ch 192000Hz\n\
\tFlags: HARDWARE DECIBEL_VOLUME\n\
\tProperties:\n\
\t\talsa.card = \"2\"\n\
\t\tdevice.bus = \"usb\"\n\
Sink #60\n\
\tName: null-sink\n\
\tDescription: Null Output\n\
\tSample Specification: float32le 2ch 44100Hz\n\
\tFlags: DECIBEL_VOLUME LATENCY\n";

#[test]
fn enumerate_sinks_reads_every_block() {
    let sinks = enumerate_pipewire_sinks(SINKS, Some("alsa_output.usb-Cambridge_Audio-00.analog-stereo"));
    assert_eq!(sinks.len(), 3);
    assert_eq!(sinks[0].id, "alsa_output.pci-0000_00_1f.3.analog-stereo");
    assert_eq!(sinks[0].name, "Built-in Audio Analog Stereo");
    assert!(!sinks[0].is_default);
    assert_eq!(sinks[0].max_sample_rate, Some(48000));
    assert_eq!(sinks[0].device_bus.as_deref(), Some("pci"));
    assert!(sinks[0].is_hardware);
    assert!(sinks[1].is_default);
    assert_eq!(sinks[1].max_sample_rate, Some(192000));
    assert_eq!(sinks[1].device_bus.as_deref(), Some("usb"));
    assert_eq!(sinks[2].name, "Null Output");
    assert!(!sinks[2].is_hardware);
    assert_eq!(sinks[2].device_bus, None);
    assert_eq!(sinks[2].max_sample_rate, Some(44100));
}

#[test]
fn enumerate_sinks_skips_incomplete_blocks() {
    let sinks = enumerate_pipewire_sinks("Sink #1\n\tName: only-name\nSink #2\n\tName: x\n\tDescription: X\n", None);
    assert_eq!(sinks.len(), 1);
    assert_eq!(sinks[0].id, "x");
    assert!(!sinks[0].is_default);
    assert!(enumerate_pipewire_sinks("", None).is_empty());
}

#[test]
fn alsa_card_for_sink_is_read_from_its_block() {
    assert_eq!(
        get_alsa_card_for_sink(SINKS, "alsa_output.usb-Cambridge_Audio-00.analog-stereo"),
        Some("2".to_string())
    );
    assert_eq!(get_alsa_card_for_sink(SINKS, "alsa_output.pci-0000_00_1f.3.analog-stereo"), Some("0".to_string()));
    assert_eq!(get_alsa_card_for_sink(SINKS, "null-sink"), None);
    assert_eq!(get_alsa_card_for_sink(SINKS, "missing"), None);
}

#[test]
fn alsa_card_lookup_stops_at_the_next_sink() {
    let text = "Sink #1\n\tName: a\nSink #2\n\tName: b\n\t\talsa.card = \"5\"\n";
    assert_eq!(get_alsa_card_for_sink(text, "a"), None);
    assert_eq!(get_alsa_card_for_sink(text, "b"), Some("5".to_string()));
}

#[test]
fn clock_rate_is_read_from_pw_metadata() {
    let out = "Found \"settings\" metadata 0\nupdate: id:0 key:'clock.rate' value:'96000' type:''\n";
    assert_eq!(parse_pipewire_clock_rate(out), Some(96000));
    assert_eq!(parse_pipewire_clock_rate("Found \"settings\" metadata 0\n"), None);
    assert_eq!(parse_pipewire_clock_rate("update: id:0 key:'clock.rate' value:'abc' type:''"), None);
}

#[test]
fn stream_rate_and_device_choices() {
    use_stream_decisions();
}

fn use_stream_decisions() {
    assert_eq!(effective_stream_rate(96000, &Some(vec![44100, 48000, 96000])), 96000);
    assert_eq!(effective_stream_rate(176400, &Some(vec![44100, 48000, 88200, 96000])), 88200);
    assert_eq!(effective_stream_rate(176400, &None), 176400);
    assert_eq!(pipewire_device_score("PipeWire"), 3);
    assert_eq!(pipewire_device_score("PipeWire Sound Server"), 2);
    assert_eq!(pipewire_device_score("Some PulseAudio thing"), 1);
    assert_eq!(pipewire_device_score("hw:0,0"), 0);
    let names = vec!["default".to_string(), "PipeWire Sound Server".to_string(), "pulse".to_string(), "Pulse".to_string()];
    assert_eq!(pick_pipewire_device(&names), Some(2));
    assert_eq!(pick_pipewire_device(&vec!["default".to_string()]), None);
    assert!(config_supports(&vec![(2, 44100, 192000)], 2, 96000));
    assert!(!config_supports(&vec![(2, 44100, 192000)], 6, 96000));
    assert_eq!(stream_buffer_frames(true, 192000), 512);
    assert_eq!(stream_buffer_frames(false, 192000), 19200);
    assert!(needs_rate_reapply(96000));
    assert!(!needs_rate_reapply(48000));
}
