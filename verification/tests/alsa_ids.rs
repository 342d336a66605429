use qbz::alsa_ids::{
    build_hw_fallback_id, device_supports_sample_rate, extract_card_name_from_device,
    find_best_fallback_rate, find_card_number_by_name, get_device_supported_rates, is_playback_pcm_entry,
    is_card_present_in_proc, is_known_pcm_id, normalize_device_id_to_stable, parse_pcm_info,
    parse_proc_card_line, parse_proc_cards, parse_stream0_rates, resolve_stable_to_current_hw,
    sort_pcm_devices, ProcCardInfo, ProcPcmInfo,
};

fn no_cards() -> Vec<ProcCardInfo> {
    Vec::new()
}

fn card(number: &str, short_name: &str, stream0: Option<&str>) -> ProcCardInfo {
    ProcCardInfo {
        number: number.to_string(),
        short_name: short_name.to_string(),
        long_name: format!("{} long", short_name),
        pcm_playback_devices: Vec::new(),
        stream0: stream0.map(|s| s.to_string()),
    }
}

#[test]
fn build_hw_fallback_id_rewrites_iec958_alias() {
    assert_eq!(
        build_hw_fallback_id("iec958:CARD=sndrpihifiberry,DEV=0"),
        Some("hw:CARD=sndrpihifiberry,DEV=0".to_string())
    );
}

#[test]
fn build_hw_fallback_id_handles_every_alias_prefix() {
    assert_eq!(
        build_hw_fallback_id("front:CARD=Generic,DEV=0"),
        Some("hw:CARD=Generic,DEV=0".to_string())
    );
    assert_eq!(
        build_hw_fallback_id("sysdefault:CARD=PCH,DEV=0"),
        Some("hw:CARD=PCH,DEV=0".to_string())
    );
    assert_eq!(
        build_hw_fallback_id("hdmi:CARD=HDMI,DEV=3"),
        Some("hw:CARD=HDMI,DEV=3".to_string())
    );
}

#[test]
fn build_hw_fallback_id_defaults_dev_when_missing() {
    assert_eq!(
        build_hw_fallback_id("iec958:CARD=NameOnly"),
        Some("hw:CARD=NameOnly,DEV=0".to_string())
    );
}

#[test]
fn build_hw_fallback_id_returns_none_for_non_alias_inputs() {
    assert_eq!(build_hw_fallback_id("hw:0,0"), None);
    assert_eq!(build_hw_fallback_id("plughw:0,0"), None);
    assert_eq!(build_hw_fallback_id("default"), None);
    assert_eq!(build_hw_fallback_id("pulse"), None);
    assert_eq!(build_hw_fallback_id(""), None);
}

#[test]
fn build_hw_fallback_id_without_dev_prefix_uses_zero() {
    assert_eq!(
        build_hw_fallback_id("front:CARD=X,7"),
        Some("hw:CARD=X,DEV=0".to_string())
    );
}

#[test]
fn extract_card_name_from_device_handles_alias_prefixes() {
    let cards = no_cards();
    assert_eq!(
        extract_card_name_from_device("iec958:CARD=sndrpihifiberry,DEV=0", &cards),
        Some("sndrpihifiberry".to_string())
    );
    assert_eq!(
        extract_card_name_from_device("front:CARD=Generic,DEV=0", &cards),
        Some("Generic".to_string())
    );
    assert_eq!(
        extract_card_name_from_device("hdmi:CARD=HDMI_C,DEV=3", &cards),
        Some("HDMI_C".to_string())
    );
    assert_eq!(
        extract_card_name_from_device("sysdefault:CARD=PCH,DEV=0", &cards),
        Some("PCH".to_string())
    );
}

#[test]
fn extract_card_name_from_device_rejects_non_card_pcms() {
    let cards = no_cards();
    assert_eq!(extract_card_name_from_device("default", &cards), None);
    assert_eq!(extract_card_name_from_device("pulse", &cards), None);
    assert_eq!(extract_card_name_from_device("null", &cards), None);
    assert_eq!(extract_card_name_from_device("", &cards), None);
}

#[test]
fn extract_card_name_from_device_looks_up_hw_numbers() {
    let cards = vec![card("0", "PCH", None), card("1", "C20", None)];
    assert_eq!(extract_card_name_from_device("hw:1,0", &cards), Some("C20".to_string()));
    assert_eq!(extract_card_name_from_device("plughw:0,0", &cards), Some("PCH".to_string()));
    assert_eq!(extract_card_name_from_device("hw:5,0", &cards), None);
}

#[test]
fn is_card_present_in_proc_short_circuits_on_unparseable_ids() {
    let cards = no_cards();
    assert!(!is_card_present_in_proc("default", &cards));
    assert!(!is_card_present_in_proc("pulse", &cards));
    assert!(!is_card_present_in_proc("null", &cards));
    assert!(!is_card_present_in_proc("", &cards));
}

#[test]
fn is_card_present_in_proc_checks_the_card_table() {
    let cards = vec![card("0", "sndrpihifiberry", None)];
    assert!(is_card_present_in_proc("iec958:CARD=sndrpihifiberry,DEV=0", &cards));
    assert!(!is_card_present_in_proc("iec958:CARD=Other,DEV=0", &cards));
}

#[test]
fn is_known_pcm_id_keeps_only_lookup_targets() {
    assert!(is_known_pcm_id("default"));
    assert!(is_known_pcm_id("sysdefault:CARD=PCH"));
    assert!(is_known_pcm_id("front:CARD=Generic,DEV=0"));
    assert!(is_known_pcm_id("hdmi:CARD=HDMI,DEV=3"));
    assert!(is_known_pcm_id("iec958:CARD=sndrpihifiberry,DEV=0"));

    assert!(!is_known_pcm_id("dmix:CARD=PCH,DEV=0"));
    assert!(!is_known_pcm_id("dsnoop:CARD=PCH,DEV=0"));
    assert!(!is_known_pcm_id("route:CARD=PCH"));
    assert!(!is_known_pcm_id("surround51:CARD=PCH"));
    assert!(!is_known_pcm_id("pulse"));
    assert!(!is_known_pcm_id("null"));
    assert!(!is_known_pcm_id("hw:0,0"));
    assert!(!is_known_pcm_id("plughw:0,0"));
}

#[test]
fn normalize_device_id_to_stable_examples() {
    let cards = vec![card("0", "C20", None), card("2", "NVidia", None)];
    assert_eq!(normalize_device_id_to_stable("hw:0,0", &cards), "front:CARD=C20,DEV=0");
    assert_eq!(normalize_device_id_to_stable("hw:2,0", &cards), "front:CARD=NVidia,DEV=0");
    assert_eq!(normalize_device_id_to_stable("front:CARD=C20,DEV=0", &cards), "front:CARD=C20,DEV=0");
    assert_eq!(normalize_device_id_to_stable("plughw:0,0", &cards), "plughw:0,0");
    assert_eq!(normalize_device_id_to_stable("default", &cards), "default");
    assert_eq!(normalize_device_id_to_stable("hw:0", &cards), "hw:0");
    assert_eq!(normalize_device_id_to_stable("hw:7,0", &cards), "hw:7,0");
}

#[test]
fn resolve_stable_to_current_hw_examples() {
    let cards = vec![card("3", "C20", None)];
    assert_eq!(resolve_stable_to_current_hw("front:CARD=C20,DEV=0", &cards), Some("hw:3,0".to_string()));
    assert_eq!(resolve_stable_to_current_hw("front:CARD=C20", &cards), Some("hw:3,0".to_string()));
    assert_eq!(resolve_stable_to_current_hw("front:CARD=C20,DEV=2", &cards), Some("hw:3,2".to_string()));
    assert_eq!(resolve_stable_to_current_hw("front:CARD=Gone,DEV=0", &cards), None);
    assert_eq!(resolve_stable_to_current_hw("hw:1,0", &cards), Some("hw:1,0".to_string()));
}

#[test]
fn stable_id_round_trips_through_current_hw() {
    let cards = vec![card("0", "C20", None), card("1", "PCH", None)];
    let stable = normalize_device_id_to_stable("hw:1,0", &cards);
    assert_eq!(resolve_stable_to_current_hw(&stable, &cards), Some("hw:1,0".to_string()));
}

const STREAM0: &str = "Cambridge Audio USB Audio 2.0 at usb-0000:00:14.0-2, high speed : USB Audio\n\
\n\
Playback:\n\
  Status: Stop\n\
  Interface 1\n\
    Altset 1\n\
    Format: S32_LE\n\
    Rates: 96000, 44100, 48000, 88200\n\
  Interface 1\n\
    Altset 2\n\
    Rates: 192000, 44100, 176400\n\
\n\
Capture:\n\
  Interface 2\n\
    Rates: 8000, 16000\n";

#[test]
fn parse_stream0_rates_reads_playback_sections() {
    assert_eq!(
        parse_stream0_rates(STREAM0),
        Some(vec![44100, 48000, 88200, 96000, 176400, 192000])
    );
}

#[test]
fn parse_stream0_rates_continuous_and_empty() {
    assert_eq!(parse_stream0_rates("Playback:\n  Rates: 8000 - 192000 (continuous)\n"), None);
    assert_eq!(parse_stream0_rates("Capture:\n  Rates: 44100\n"), None);
    assert_eq!(parse_stream0_rates(""), None);
    assert_eq!(parse_stream0_rates("Playback:\r\n  Rates: +48000, x, 44100\r\n"), Some(vec![44100, 48000]));
}

#[test]
fn device_rates_come_from_the_named_card() {
    let cards = vec![card("0", "PCH", None), card("1", "C20", Some(STREAM0))];
    assert_eq!(
        get_device_supported_rates("front:CARD=C20,DEV=0", &cards),
        Some(vec![44100, 48000, 88200, 96000, 176400, 192000])
    );
    assert_eq!(get_device_supported_rates("front:CARD=PCH,DEV=0", &cards), None);
    assert_eq!(device_supports_sample_rate("hw:1,0", 96000, &cards), Some(true));
    assert_eq!(device_supports_sample_rate("hw:1,0", 384000, &cards), Some(false));
    assert_eq!(device_supports_sample_rate("default", 44100, &cards), None);
    assert_eq!(find_card_number_by_name("C20", &cards), Some("1".to_string()));
    assert_eq!(find_card_number_by_name("Nope", &cards), None);
}

#[test]
fn find_best_fallback_rate_examples() {
    assert_eq!(find_best_fallback_rate(192000, &[44100, 48000, 96000]), 96000);
    assert_eq!(find_best_fallback_rate(176400, &[44100, 48000, 88200, 96000]), 88200);
    assert_eq!(find_best_fallback_rate(88200, &[48000, 96000]), 96000);
    assert_eq!(find_best_fallback_rate(44100, &[]), 48000);
}

#[test]
fn parse_proc_card_line_examples() {
    assert_eq!(
        parse_proc_card_line(" 0 [C20            ]: USB-Audio - Cambridge Audio USB Audio 2.0"),
        Some(("0".to_string(), "C20".to_string(), "Cambridge Audio USB Audio 2.0".to_string()))
    );
    assert_eq!(
        parse_proc_card_line(" 1 [PCH            ]: HDA-Intel"),
        Some(("1".to_string(), "PCH".to_string(), "HDA-Intel".to_string()))
    );
    assert_eq!(parse_proc_card_line("                      Cambridge Audio at usb-1"), None);
    assert_eq!(parse_proc_card_line("x [A]: b - c"), None);
    assert_eq!(parse_proc_card_line(" 2 [Broken"), None);
}

#[test]
fn parse_proc_cards_reads_every_card() {
    let text = " 0 [PCH            ]: HDA-Intel - HDA Intel PCH\n                      HDA Intel PCH at 0xf7f10000 irq 32\n 1 [C20            ]: USB-Audio - Cambridge Audio USB Audio 2.0\n                      Cambridge Audio at usb-0000:00:14.0-2\n";
    let cards = parse_proc_cards(text);
    assert_eq!(cards.len(), 2);
    assert_eq!(cards[0], ("0".to_string(), "PCH".to_string(), "HDA Intel PCH".to_string()));
    assert_eq!(cards[1].1, "C20");
}

#[test]
fn parse_pcm_info_examples() {
    let info = parse_pcm_info("card: 1\ndevice: 0\nsubdevice: 0\nstream: PLAYBACK\nid: USB Audio\nname: USB Audio\n").unwrap();
    assert_eq!(info.device_num, "0");
    assert_eq!(info.name, "USB Audio");
    let unnamed = parse_pcm_info("device: 3\n").unwrap();
    assert_eq!(unnamed.name, "Unknown");
    assert!(parse_pcm_info("name: X\n").is_none());
}

#[test]
fn sort_pcm_devices_is_stable_by_number() {
    let d = |n: &str, name: &str| ProcPcmInfo { device_num: n.to_string(), name: name.to_string() };
    let sorted = sort_pcm_devices(vec![d("3", "a"), d("x", "b"), d("1", "c"), d("0", "d"), d("3", "e")]);
    let names: Vec<&str> = sorted.iter().map(|p| p.name.as_str()).collect();
    assert_eq!(names, vec!["b", "d", "c", "a", "e"]);
}

#[test]
fn playback_pcm_entries() {
    assert!(is_playback_pcm_entry("pcm0p"));
    assert!(is_playback_pcm_entry("pcm3p"));
    assert!(!is_playback_pcm_entry("pcm0c"));
    assert!(!is_playback_pcm_entry("id"));
    assert!(!is_playback_pcm_entry(""));
}
