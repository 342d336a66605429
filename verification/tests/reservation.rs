use qbz::alsa_ids::ProcCardInfo;
use qbz::reservation::{card_entries_from_proc, bus_name_for_card, object_path_for_card, parse_card_index, CardEntry, DeviceReservation, ReservationError};

fn no_cards() -> Vec<CardEntry> {
    Vec::new()
}

#[test]
fn parse_card_index_basic() {
    let cards = no_cards();
    assert_eq!(parse_card_index("hw:0", &cards).unwrap(), 0);
    assert_eq!(parse_card_index("hw:1,0", &cards).unwrap(), 1);
    assert_eq!(parse_card_index("plughw:2,0", &cards).unwrap(), 2);
    assert_eq!(parse_card_index("hw:99,3", &cards).unwrap(), 99);
}

#[test]
fn parse_card_index_rejects_garbage() {
    let cards = no_cards();
    assert!(matches!(parse_card_index("default", &cards), Err(ReservationError::InvalidDevice(_))));
    assert!(matches!(parse_card_index("hw:", &cards), Err(ReservationError::InvalidDevice(_))));
    assert!(matches!(parse_card_index("", &cards), Err(ReservationError::InvalidDevice(_))));
}

#[test]
fn parse_card_index_resolves_names() {
    let cards = vec![
        CardEntry::Card { index: 0, name: "PCH".to_string() },
        CardEntry::Card { index: 2, name: "DacMagic".to_string() },
    ];
    assert_eq!(parse_card_index("hw:CARD=DacMagic,DEV=0", &cards).unwrap(), 2);
    assert_eq!(parse_card_index("  hw:CARD=DacMagic ", &cards).unwrap(), 2);
    match parse_card_index("hw:CARD=Missing", &cards) {
        Err(ReservationError::InvalidDevice(m)) => assert_eq!(m, "ALSA card 'Missing' not found"),
        other => panic!("unexpected {:?}", other),
    }
    let failing = vec![CardEntry::Failed("no access".to_string())];
    match parse_card_index("hw:CARD=DacMagic", &failing) {
        Err(ReservationError::AlsaError(m)) => assert_eq!(m, "no access"),
        other => panic!("unexpected {:?}", other),
    }
    assert!(matches!(parse_card_index("hw:x,0", &cards), Err(ReservationError::InvalidDevice(_))));
}

#[test]
fn bus_name_format() {
    assert_eq!(bus_name_for_card(0), "org.freedesktop.ReserveDevice1.Audio0");
    assert_eq!(bus_name_for_card(7), "org.freedesktop.ReserveDevice1.Audio7");
    assert_eq!(bus_name_for_card(99), "org.freedesktop.ReserveDevice1.Audio99");
}

#[test]
fn object_path_format() {
    assert_eq!(object_path_for_card(0), "/org/freedesktop/ReserveDevice1/Audio0");
}

#[test]
fn degraded_guard_reports_inactive() {
    let g = DeviceReservation::acquire("hw:0,0", "test", &no_cards()).unwrap();
    assert!(!g.is_active());
}

#[test]
fn acquire_rejects_invalid_devices() {
    assert!(matches!(
        DeviceReservation::acquire("default", "test", &no_cards()),
        Err(ReservationError::InvalidDevice(_))
    ));
}

#[test]
fn error_messages() {
    assert_eq!(ReservationError::InvalidDevice("x".to_string()).message(), "invalid ALSA device string: x");
    assert_eq!(
        ReservationError::HigherPriorityHolder { holder_name: "pw".to_string(), holder_priority: -5 }.message(),
        "device reserved by 'pw' at priority -5"
    );
    assert_eq!(ReservationError::DbusError("d".to_string()).message(), "D-Bus error: d");
    assert_eq!(ReservationError::AlsaError("a".to_string()).message(), "ALSA error: a");
}

fn proc_card(number: &str, short: &str) -> ProcCardInfo {
    ProcCardInfo {
        number: number.to_string(),
        short_name: short.to_string(),
        long_name: String::new(),
        pcm_playback_devices: Vec::new(),
        stream0: None,
    }
}

#[test]
fn card_entries_read_proc_numbers() {
    let cards = vec![proc_card("0", "PCH"), proc_card("x", "Bad"), proc_card("+2", "C20"), proc_card("-1", "Neg")];
    let entries = card_entries_from_proc(&cards);
    assert_eq!(entries.len(), 3);
    match &entries[1] {
        CardEntry::Card { index, name } => {
            assert_eq!(*index, 2);
            assert_eq!(name, "C20");
        }
        _ => panic!("expected a card"),
    }
    match &entries[2] {
        CardEntry::Card { index, .. } => assert_eq!(*index, -1),
        _ => panic!("expected a card"),
    }
    assert_eq!(parse_card_index("hw:CARD=C20,DEV=0", &entries).unwrap(), 2);
}
