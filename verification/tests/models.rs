use qbz::coreaudio::{
    check_hog_acquired, decide_hog_step, get_nominal_sample_rate_by_name, hog_busy_message,
    query_supported_sample_rates, resolve_output_device_id, resolve_output_device_name,
    set_nominal_sample_rate_by_name, transport_type_label, HogStep,
};
use qbz::library::{LocalContentStatus, PlaylistSettings, PlaylistStats};
use qbz::models::{ImageSet, Quality};

#[test]
fn quality_ids_round_trip() {
    for q in Quality::fallback_order() {
        assert_eq!(Quality::from_id(q.id()), Some(q));
    }
    assert_eq!(Quality::from_id(8), None);
    assert_eq!(Quality::UltraHiRes.id(), 27);
    assert_eq!(Quality::default(), Quality::Lossless);
}

#[test]
fn quality_labels_and_lowering() {
    assert_eq!(Quality::Mp3.label(), "MP3 320kbps");
    assert_eq!(Quality::HiRes.label(), "FLAC 24-bit/\u{2264}96kHz");
    assert_eq!(Quality::UltraHiRes.lower(), Some(Quality::HiRes));
    assert_eq!(Quality::Mp3.lower(), None);
    let order = Quality::fallback_order();
    for w in order.windows(2) {
        assert_eq!(w[0].lower(), Some(w[1]));
    }
}

#[test]
fn image_set_best_prefers_largest() {
    let mut img = ImageSet::default();
    assert!(img.best().is_none());
    img.small = Some("s".to_string());
    img.back = Some("b".to_string());
    assert_eq!(img.best().map(|s| s.as_str()), Some("s"));
    img.large = Some("l".to_string());
    assert_eq!(img.best().map(|s| s.as_str()), Some("l"));
    img.mega = Some("m".to_string());
    assert_eq!(img.best().map(|s| s.as_str()), Some("m"));
}

#[test]
fn local_content_status_round_trip() {
    for s in [LocalContentStatus::Unknown, LocalContentStatus::No, LocalContentStatus::SomeLocal, LocalContentStatus::AllLocal] {
        assert_eq!(LocalContentStatus::from_str(s.as_str()), s);
    }
    assert_eq!(LocalContentStatus::from_str("bogus"), LocalContentStatus::Unknown);
    assert_eq!(LocalContentStatus::default(), LocalContentStatus::Unknown);
}

#[test]
fn playlist_defaults() {
    let s = PlaylistSettings::new_at(42);
    assert_eq!(s.sort_by, "default");
    assert_eq!(s.sort_order, "asc");
    assert_eq!(s.created_at, 42);
    let d = PlaylistSettings::default();
    assert_eq!(d.created_at, d.updated_at);
    let st = PlaylistStats::new_at(7);
    assert_eq!(st.play_count, 0);
    assert_eq!(st.updated_at, 7);
}

#[test]
fn coreaudio_absent_answers() {
    assert_eq!(query_supported_sample_rates("x").unwrap(), Vec::<u32>::new());
    assert_eq!(get_nominal_sample_rate_by_name("x").unwrap_err(), "CoreAudio is only available on macOS");
    assert_eq!(set_nominal_sample_rate_by_name("x", 44100).unwrap_err(), "CoreAudio is only available on macOS");
}

#[test]
fn coreaudio_device_resolution() {
    assert_eq!(resolve_output_device_id(Some("DAC"), Ok(Some(5)), Ok(1)), Ok(5));
    assert_eq!(
        resolve_output_device_id(Some("DAC"), Ok(None), Ok(1)),
        Err("CoreAudio output device 'DAC' not found".to_string())
    );
    assert_eq!(resolve_output_device_id(None, Ok(Some(5)), Ok(1)), Ok(1));
    assert_eq!(resolve_output_device_name(Ok(1), Ok("Speakers".to_string())), Ok("Speakers".to_string()));
    assert_eq!(resolve_output_device_name(Err("e".to_string()), Ok("Speakers".to_string())), Err("e".to_string()));
}

#[test]
fn coreaudio_hog_mode_decisions() {
    assert_eq!(decide_hog_step(true, 10, 10), HogStep::Nothing);
    assert_eq!(decide_hog_step(true, 33, 10), HogStep::Busy(33));
    assert_eq!(decide_hog_step(true, -1, 10), HogStep::Toggle);
    assert_eq!(decide_hog_step(false, 10, 10), HogStep::Toggle);
    assert_eq!(decide_hog_step(false, 33, 10), HogStep::Nothing);
    assert_eq!(hog_busy_message(4, 33), "CoreAudio device 4 is already hogged by pid 33");
    assert!(check_hog_acquired(4, 10, 10).is_ok());
    assert_eq!(
        check_hog_acquired(4, -1, 10).unwrap_err(),
        "CoreAudio Hog Mode was not acquired for device 4 (owner pid: -1)"
    );
    assert_eq!(transport_type_label(0x75736220), "usb");
    assert_eq!(transport_type_label(0x64707274), "hdmi");
    assert_eq!(transport_type_label(1), "unknown");
}
