use qbz::alsa_devices::{
    alsa_effective_rate, busy_retry_delays_ms, device_not_found_message, direct_stream_devices,
    enumerate_with_proc_descriptions, get_supported_sample_rates, try_hw_first, AlsaPlugin,
    after_direct_open_failure, DirectOpenError, DirectOpenNext, DirectOpenStage,
};
use qbz::alsa_ids::{ProcCardInfo, ProcPcmInfo};

fn pcm(num: &str, name: &str) -> ProcPcmInfo {
    ProcPcmInfo { device_num: num.to_string(), name: name.to_string() }
}

#[test]
fn supported_rates_follow_config_ranges() {
    assert_eq!(get_supported_sample_rates(&vec![]), None);
    assert_eq!(get_supported_sample_rates(&vec![(8000, 16000)]), None);
    assert_eq!(
        get_supported_sample_rates(&vec![(44100, 48000), (96000, 96000)]),
        Some(vec![44100, 48000, 96000])
    );
    assert_eq!(
        get_supported_sample_rates(&vec![(1, 1_000_000)]),
        Some(vec![44100, 48000, 88200, 96000, 176400, 192000, 352800, 384000])
    );
}

#[test]
fn device_list_from_cards() {
    let cards = vec![
        ProcCardInfo {
            number: "0".to_string(),
            short_name: "PCH".to_string(),
            long_name: "HDA Intel PCH".to_string(),
            pcm_playback_devices: vec![pcm("0", "ALC887 Analog"), pcm("3", "HDMI 0"), pcm("3", "HDMI 0 again")],
            stream0: None,
        },
        ProcCardInfo {
            number: "1".to_string(),
            short_name: "Digi2".to_string(),
            long_name: "HiFiBerry Digi2 Pro".to_string(),
            pcm_playback_devices: vec![pcm("0", "S/PDIF output")],
            stream0: None,
        },
    ];
    let cpal = vec![
        ("front:CARD=PCH,DEV=0".to_string(), Some(vec![(44100, 192000)])),
        ("sysdefault:CARD=PCH".to_string(), None),
    ];
    let devices = enumerate_with_proc_descriptions(&cards, &cpal);
    let ids: Vec<&str> = devices.iter().map(|d| d.id.as_str()).collect();
    assert_eq!(
        ids,
        vec![
            "default",
            "sysdefault:CARD=PCH",
            "front:CARD=PCH,DEV=0",
            "hdmi:CARD=PCH,DEV=3",
            "sysdefault:CARD=Digi2",
            "iec958:CARD=Digi2,DEV=0",
        ]
    );
    assert!(devices[0].is_default);
    assert_eq!(devices[0].max_sample_rate, Some(384000));
    assert_eq!(devices[1].max_sample_rate, Some(192000));
    assert!(!devices[1].is_hardware);
    assert_eq!(devices[1].description.as_deref(), Some("HDA Intel PCH, sysdefault:CARD=PCH"));
    assert_eq!(devices[2].max_sample_rate, Some(192000));
    assert_eq!(
        devices[2].supported_sample_rates,
        Some(vec![44100, 48000, 88200, 96000, 176400, 192000])
    );
    assert!(devices[2].is_hardware);
    assert_eq!(devices[3].max_sample_rate, Some(384000));
}

#[test]
fn direct_stream_device_pairs() {
    assert_eq!(direct_stream_devices("hw:0,0"), ("hw:0,0".to_string(), "plughw:0,0".to_string()));
    assert_eq!(direct_stream_devices("plughw:1,0"), ("hw:1,0".to_string(), "plughw:1,0".to_string()));
    assert_eq!(
        direct_stream_devices("front:CARD=AMP,DEV=0"),
        ("front:CARD=AMP,DEV=0".to_string(), "plug:front:CARD=AMP,DEV=0".to_string())
    );
    assert_eq!(direct_stream_devices("iec958:CARD=X"), ("iec958:CARD=X".to_string(), "plug:iec958:CARD=X".to_string()));
}

#[test]
fn direct_stream_plugin_choice() {
    assert_eq!(try_hw_first(None, false), Some(true));
    assert_eq!(try_hw_first(Some(AlsaPlugin::Hw), true), Some(false));
    assert_eq!(try_hw_first(Some(AlsaPlugin::PlugHw), false), Some(false));
    assert_eq!(try_hw_first(Some(AlsaPlugin::Pcm), false), None);
    assert_eq!(busy_retry_delays_ms(), vec![50, 100, 200, 400, 800]);
}

#[test]
fn cpal_stream_rate_and_errors() {
    let configs = vec![(2u16, 44100u32, 96000u32), (6, 44100, 192000)];
    assert_eq!(alsa_effective_rate(96000, 2, &configs), 96000);
    assert_eq!(alsa_effective_rate(192000, 2, &configs), 192000);
    assert_eq!(alsa_effective_rate(176400, 2, &vec![(2, 44100, 96000)]), 88200);
    assert_eq!(alsa_effective_rate(176400, 2, &vec![]), 176400);
    assert_eq!(
        device_not_found_message("hw:9,0", 44100, false),
        "Device 'hw:9,0' not found by the ALSA backend (disconnected, renamed, or handled by another app)"
    );
    assert!(device_not_found_message("front:CARD=X,DEV=0", 96000, true).contains("track rate 96000Hz"));
}

#[test]
fn direct_open_failures_lead_on() {
    let hw = DirectOpenStage::Hardware;
    let plug = DirectOpenStage::PlugHw;
    assert_eq!(after_direct_open_failure(hw, DirectOpenError::DeviceBusy), DirectOpenNext::RetryWhileBusy);
    assert_eq!(after_direct_open_failure(plug, DirectOpenError::DeviceBusy), DirectOpenNext::RetryWhileBusy);
    assert_eq!(after_direct_open_failure(hw, DirectOpenError::InvalidParams), DirectOpenNext::UseCpal);
    assert_eq!(after_direct_open_failure(plug, DirectOpenError::InvalidParams), DirectOpenNext::UseCpal);
    assert_eq!(
        after_direct_open_failure(hw, DirectOpenError::Other { allows_plughw_fallback: true }),
        DirectOpenNext::TryPlugHw
    );
    assert_eq!(
        after_direct_open_failure(hw, DirectOpenError::Other { allows_plughw_fallback: false }),
        DirectOpenNext::Fail
    );
    assert_eq!(
        after_direct_open_failure(plug, DirectOpenError::Other { allows_plughw_fallback: true }),
        DirectOpenNext::Fail
    );
}
