use qbz::cmaf::{parse_init_segment, parse_segment_crypto, CmafError};

const INIT_UUID: [u8; 16] = [
    0xc7, 0xc7, 0x5d, 0xf0, 0xfd, 0xd9, 0x51, 0xe9, 0x8f, 0xc2, 0x29, 0x71, 0xe4, 0xac, 0xf8, 0xd2,
];
const SEGMENT_UUID: [u8; 16] = [
    0x3b, 0x42, 0x12, 0x92, 0x56, 0xf3, 0x5f, 0x75, 0x92, 0x36, 0x63, 0xb6, 0x9a, 0x1f, 0x52, 0xb2,
];

fn boxed(kind: &[u8; 4], body: &[u8]) -> Vec<u8> {
    let mut out = ((body.len() + 8) as u32).to_be_bytes().to_vec();
    out.extend_from_slice(kind);
    out.extend_from_slice(body);
    out
}

fn init_payload(segments: &[(u32, u32)]) -> Vec<u8> {
    let mut p = vec![0u8; 26];
    let mut raw = vec![0xAA, 0xBB];
    raw.extend_from_slice(b"fLaC");
    raw.extend_from_slice(&[0x00, 0x00, 0x00, 0x22]);
    raw.extend((0..34).map(|i| i as u8));
    p.extend_from_slice(&(raw.len() as u16).to_be_bytes());
    p.extend_from_slice(&raw);
    p.push(3);
    p.extend_from_slice(&[9, 9, 9]);
    p.extend_from_slice(&(segments.len() as u16).to_be_bytes());
    for (len, count) in segments {
        p.extend_from_slice(&len.to_be_bytes());
        p.extend_from_slice(&count.to_be_bytes());
    }
    p
}

#[test]
fn init_segment_yields_header_and_table() {
    let mut body = INIT_UUID.to_vec();
    body.extend(init_payload(&[(1000, 4096), (2000, 8192)]));
    let mut data = boxed(b"ftyp", b"cmfc");
    data.extend(boxed(b"uuid", &body));
    let info = parse_init_segment(&data).unwrap();
    assert_eq!(info.flac_header.len(), 42);
    assert_eq!(&info.flac_header[..4], b"fLaC");
    assert_eq!(info.flac_header[4], 0x80);
    assert_eq!(info.flac_header[8], 0);
    assert_eq!(info.flac_header[41], 33);
    assert_eq!(info.segment_table.len(), 2);
    assert_eq!(info.segment_table[1].byte_len, 2000);
    assert_eq!(info.segment_table[1].sample_count, 8192);
}

#[test]
fn init_segment_without_qobuz_box_fails() {
    let data = boxed(b"ftyp", b"cmfc");
    match parse_init_segment(&data) {
        Err(CmafError::ParseError(m)) => assert_eq!(m, "init segment: QBZ_INIT_UUID box not found"),
        Ok(_) => panic!("expected an error"),
    }
    let mut body = INIT_UUID.to_vec();
    body.extend(vec![0u8; 10]);
    assert!(parse_init_segment(&boxed(b"uuid", &body)).is_err());
}

#[test]
fn segment_crypto_reads_frame_entries() {
    let mut body = SEGMENT_UUID.to_vec();
    body.extend_from_slice(&[0, 0, 0, 0]);
    body.extend_from_slice(&100u32.to_be_bytes());
    body.push(8);
    body.extend_from_slice(&[0, 0, 2]);
    for (size, flags) in [(500u32, 1u16), (600, 0)] {
        body.extend_from_slice(&size.to_be_bytes());
        body.extend_from_slice(&[0xEE, 0xEE]);
        body.extend_from_slice(&flags.to_be_bytes());
        body.extend_from_slice(&[1, 2, 3, 4, 5, 6, 7, 8]);
    }
    let moof = boxed(b"uuid", &body);
    let mut data = moof.clone();
    data.extend(boxed(b"mdat", &[0u8; 16]));
    let crypto = parse_segment_crypto(&data).unwrap();
    assert_eq!(crypto.data_offset, 100);
    assert_eq!(crypto.mdat_end, data.len());
    assert_eq!(crypto.entries.len(), 2);
    assert_eq!(crypto.entries[0].size, 500);
    assert_eq!(crypto.entries[0].flags, 1);
    assert_eq!(crypto.entries[1].size, 600);
    assert_eq!(crypto.entries[1].iv, [1, 2, 3, 4, 5, 6, 7, 8]);
}

#[test]
fn segment_crypto_errors() {
    assert!(parse_segment_crypto(&boxed(b"mdat", &[0u8; 4])).is_err());
    let mut body = SEGMENT_UUID.to_vec();
    body.extend_from_slice(&[0, 0, 0, 0, 0, 0, 0, 0, 8, 0, 0, 5]);
    match parse_segment_crypto(&boxed(b"uuid", &body)) {
        Err(CmafError::ParseError(m)) => {
            assert_eq!(m, "segment UUID: not enough data for 5 entries of 16 bytes")
        }
        Ok(_) => panic!("expected an error"),
    }
}

#[test]
fn init_box_smaller_than_its_header_is_an_error() {
    let mut data = 20u32.to_be_bytes().to_vec();
    data.extend_from_slice(b"uuid");
    data.extend_from_slice(&INIT_UUID);
    assert!(parse_init_segment(&data).is_err());
}
