//! Parser for the CMAF (ISO BMFF) segments of Qobuz streams: the init
//! segment's FLAC header and segment table, and the per-frame crypto info of
//! audio segments.

use vstd::prelude::*;
use crate::text::{decimal, push_decimal};

verus! {

/// Errors of the segment parser.
#[derive(Debug)]
pub enum CmafError {
    ParseError(String),
}

/// One entry of the init segment's segment table.
#[derive(Debug, Clone, Copy, PartialEq, Eq, Structural)]
pub struct SegmentTableEntry {
    /// Byte size of the segment's decrypted FLAC frame data.
    pub byte_len: u32,
    /// Number of audio samples in the segment.
    pub sample_count: u32,
}

/// FLAC header and segment table of an init segment.
#[derive(Debug)]
pub struct InitInfo {
    pub flac_header: Vec<u8>,
    /// Entry `i` describes segment `i + 1`.
    pub segment_table: Vec<SegmentTableEntry>,
}

/// One frame entry of an audio segment.
#[derive(Debug)]
pub struct FrameEntry {
    pub size: u32,
    pub flags: u16,
    pub iv: [u8; 8],
}

/// Crypto info of an audio segment.
#[derive(Debug)]
pub struct SegmentCrypto {
    /// Offset of the start of the audio frame data.
    pub data_offset: usize,
    /// End of the mdat box content.
    pub mdat_end: usize,
    pub entries: Vec<FrameEntry>,
}

/// UUID that marks the init segment's Qobuz box.
pub open spec fn init_uuid() -> Seq<u8> {
    seq![0xc7u8, 0xc7, 0x5d, 0xf0, 0xfd, 0xd9, 0x51, 0xe9, 0x8f, 0xc2, 0x29, 0x71, 0xe4, 0xac, 0xf8, 0xd2]
}

/// UUID that marks an audio segment's Qobuz box.
pub open spec fn segment_uuid() -> Seq<u8> {
    seq![0x3bu8, 0x42, 0x12, 0x92, 0x56, 0xf3, 0x5f, 0x75, 0x92, 0x36, 0x63, 0xb6, 0x9a, 0x1f, 0x52, 0xb2]
}

/// Box type "uuid".
pub open spec fn uuid_type() -> Seq<u8> {
    seq![0x75u8, 0x75, 0x69, 0x64]
}

/// Box type "mdat".
pub open spec fn mdat_type() -> Seq<u8> {
    seq![0x6du8, 0x64, 0x61, 0x74]
}

/// FLAC stream marker "fLaC".
pub open spec fn flac_magic() -> Seq<u8> {
    seq![0x66u8, 0x4c, 0x61, 0x43]
}

/// Length of the FLAC marker, STREAMINFO block header and STREAMINFO data.
pub const FLAC_HEADER_LEN: usize = 42;

/// Big-endian 16-bit value at `i`.
pub open spec fn be_u16(s: Seq<u8>, i: int) -> int {
    s[i] * 256 + s[i + 1]
}

/// Big-endian 24-bit value at `i`.
pub open spec fn be_u24(s: Seq<u8>, i: int) -> int {
    s[i] * 65536 + s[i + 1] * 256 + s[i + 2]
}

/// Big-endian 32-bit value at `i`.
pub open spec fn be_u32(s: Seq<u8>, i: int) -> int {
    s[i] * 16777216 + s[i + 1] * 65536 + s[i + 2] * 256 + s[i + 3]
}

/// Whether `pat` occurs in `s` at `pos`.
pub open spec fn bytes_at(s: Seq<u8>, pos: int, pat: Seq<u8>) -> bool {
    0 <= pos && pos + pat.len() <= s.len() && s.subrange(pos, pos + pat.len()) == pat
}

/// Size of the box starting at `pos`: 0 when there is no full header; a
/// size field of 0 means "to the end of the data"; sizes 1..=7 are invalid (0).
pub open spec fn box_size(data: Seq<u8>, pos: int) -> int {
    if pos + 8 > data.len() {
        0
    } else {
        let v = be_u32(data, pos);
        if v == 0 {
            data.len() - pos
        } else if v <= 7 {
            0
        } else {
            v
        }
    }
}

/// Walk the boxes from `pos`: the first "uuid" box carrying `uuid`, as
/// (payload start, box end). The walk stops at a malformed box.
pub open spec fn find_uuid_box_from(data: Seq<u8>, pos: int, uuid: Seq<u8>) -> Option<(int, int)>
    decreases data.len() - pos,
{
    if pos < 0 || pos + 8 > data.len() {
        None
    } else {
        let size = box_size(data, pos);
        if size < 8 || pos + size > data.len() {
            None
        } else if bytes_at(data, pos + 4, uuid_type()) && pos + 24 <= data.len() && bytes_at(
            data,
            pos + 8,
            uuid,
        ) {
            Some((pos + 24, pos + size))
        } else {
            find_uuid_box_from(data, pos + size, uuid)
        }
    }
}

/// Walk the boxes from `pos`: the first "mdat" box, as (data start, box end).
pub open spec fn find_mdat_box_from(data: Seq<u8>, pos: int) -> Option<(int, int)>
    decreases data.len() - pos,
{
    if pos < 0 || pos + 8 > data.len() {
        None
    } else {
        let size = box_size(data, pos);
        if size < 8 || pos + size > data.len() {
            None
        } else if bytes_at(data, pos + 4, mdat_type()) {
            Some((pos + 8, pos + size))
        } else {
            find_mdat_box_from(data, pos + size)
        }
    }
}

/// Walk all top-level boxes from `pos`: the start of the last "uuid" box
/// carrying the segment UUID and the end of the last "mdat" box, starting
/// from `uuid_start` and `mdat_end`.
pub open spec fn scan_segment_boxes(data: Seq<u8>, pos: int, uuid_start: Option<int>, mdat_end: int) -> (Option<int>, int)
    decreases data.len() - pos,
{
    if pos < 0 || pos + 8 > data.len() {
        (uuid_start, mdat_end)
    } else {
        let size = box_size(data, pos);
        if size < 8 || pos + size > data.len() {
            (uuid_start, mdat_end)
        } else if bytes_at(data, pos + 4, uuid_type()) && pos + 24 <= data.len() {
            let u = if bytes_at(data, pos + 8, segment_uuid()) { Some(pos) } else { uuid_start };
            scan_segment_boxes(data, pos + size, u, mdat_end)
        } else if bytes_at(data, pos + 4, mdat_type()) {
            scan_segment_boxes(data, pos + size, uuid_start, pos + size)
        } else {
            scan_segment_boxes(data, pos + size, uuid_start, mdat_end)
        }
    }
}

/// First position of the FLAC marker in `s`.
pub open spec fn find_flac_magic(s: Seq<u8>, from: int) -> Option<int>
    decreases s.len() - from,
{
    if from < 0 || from + 4 > s.len() {
        None
    } else if bytes_at(s, from, flac_magic()) {
        Some(from)
    } else {
        find_flac_magic(s, from + 1)
    }
}

/// The segment table: up to `count` 8-byte entries from `start`, as many as
/// fit in `p`.
pub open spec fn segment_table_count(len: int, start: int, count: int) -> int {
    if start + 8 > len {
        0
    } else if count <= (len - start) / 8 {
        count
    } else {
        (len - start) / 8
    }
}

pub open spec fn table_entry(p: Seq<u8>, at: int) -> SegmentTableEntry {
    SegmentTableEntry { byte_len: be_u32(p, at) as u32, sample_count: be_u32(p, at + 4) as u32 }
}

pub open spec fn segment_table(p: Seq<u8>, start: int, count: int) -> Seq<SegmentTableEntry> {
    Seq::new(
        segment_table_count(p.len() as int, start, count) as nat,
        |i: int| table_entry(p, start + 8 * i),
    )
}

/// Offset of the raw-data length field in the init box payload (after
/// version, track id, file id, sample rate, bits per sample, channels and
/// total sample count).
pub const RAW_LEN_OFFSET: usize = 26;

/// Offset of the raw data (which holds the FLAC header) in the init box
/// payload.
pub const RAW_DATA_OFFSET: usize = 28;

/// What the init box payload `p` holds: the FLAC header (with the
/// last-metadata-block flag set) and the segment table; `None` when the
/// payload is too short or carries no complete FLAC header.
pub open spec fn init_payload(p: Seq<u8>) -> Option<(Seq<u8>, Seq<SegmentTableEntry>)> {
    if p.len() < 28 {
        None
    } else {
        let raw_len = be_u16(p, RAW_LEN_OFFSET as int);
        let raw_end = if raw_len <= p.len() - RAW_DATA_OFFSET { RAW_DATA_OFFSET + raw_len } else { p.len() as int };
        let raw = p.subrange(RAW_DATA_OFFSET as int, raw_end);
        match find_flac_magic(raw, 0) {
            None => None,
            Some(fp) => if fp + 42 > raw.len() {
                None
            } else {
                let h = raw.subrange(fp, fp + 42);
                let header = h.update(4, h[4] | 0x80u8);
                let a = RAW_DATA_OFFSET + raw_len;
                if a + 1 > p.len() {
                    Some((header, Seq::empty()))
                } else {
                    let b = a + 1 + p[a];
                    if b + 2 <= p.len() {
                        Some((header, segment_table(p, b + 2, be_u16(p, b))))
                    } else {
                        Some((header, Seq::empty()))
                    }
                }
            },
        }
    }
}

/// The frame entry at `at`, with an IV of `iv_size` bytes (zero-padded or
/// cut to 8 bytes).
pub open spec fn frame_entry_ok(e: FrameEntry, d: Seq<u8>, at: int, iv_size: int) -> bool {
    &&& e.size == be_u32(d, at)
    &&& e.flags == be_u16(d, at + 6)
    &&& forall|k: int| 0 <= k < 8 ==> e.iv[k] == (if k < iv_size { d[at + 8 + k] } else { 0u8 })
}

/// Whether `data` holds a complete crypto header and frame table for the box
/// at `box_start`.
pub open spec fn segment_payload_ok(data: Seq<u8>, box_start: int) -> bool {
    let base = box_start + 24;
    &&& base + 12 <= data.len()
    &&& base + 12 + be_u24(data, base + 9) * (8 + data[base + 8]) <= data.len()
}

/// Compare `data[pos..pos + pat.len()]` with `pat`.
fn bytes_match(data: &[u8], pos: usize, pat: &[u8]) -> (r: bool)
    requires
        pos + pat@.len() <= data@.len(),
    ensures
        r == (data@.subrange(pos as int, pos + pat@.len()) == pat@),
{
    let n = data.len();
    let mut i: usize = 0;
    while i < pat.len()
        invariant
            0 <= i <= pat@.len(),
            n == data@.len(),
            pos + pat@.len() <= data@.len(),
            forall|k: int| 0 <= k < i ==> data@[pos + k] == pat@[k],
        decreases pat@.len() - i,
    {
        if data[pos + i] != pat[i] {
            assert(data@.subrange(pos as int, pos + pat@.len())[i as int] != pat@[i as int]);
            return false;
        }
        i += 1;
    }
    assert(data@.subrange(pos as int, pos + pat@.len()) =~= pat@);
    true
}

fn be_u16_at(d: &[u8], i: usize) -> (r: u16)
    requires
        i + 2 <= d@.len(),
    ensures
        r == be_u16(d@, i as int),
{
    (d[i] as u16) * 256 + (d[i + 1] as u16)
}

fn be_u24_at(d: &[u8], i: usize) -> (r: u32)
    requires
        i + 3 <= d@.len(),
    ensures
        r == be_u24(d@, i as int),
{
    (d[i] as u32) * 65536 + (d[i + 1] as u32) * 256 + (d[i + 2] as u32)
}

fn be_u32_at(d: &[u8], i: usize) -> (r: u32)
    requires
        i + 4 <= d@.len(),
    ensures
        r == be_u32(d@, i as int),
{
    (d[i] as u32) * 16777216 + (d[i + 1] as u32) * 65536 + (d[i + 2] as u32) * 256 + (d[i + 3] as u32)
}

fn uuid_type_bytes() -> (r: Vec<u8>)
    ensures
        r@ == uuid_type(),
{
    let r = vec![0x75u8, 0x75, 0x69, 0x64];
    assert(r@ =~= uuid_type());
    r
}

fn mdat_type_bytes() -> (r: Vec<u8>)
    ensures
        r@ == mdat_type(),
{
    let r = vec![0x6du8, 0x64, 0x61, 0x74];
    assert(r@ =~= mdat_type());
    r
}

fn flac_magic_bytes() -> (r: Vec<u8>)
    ensures
        r@ == flac_magic(),
{
    let r = vec![0x66u8, 0x4c, 0x61, 0x43];
    assert(r@ =~= flac_magic());
    r
}

fn init_uuid_bytes() -> (r: Vec<u8>)
    ensures
        r@ == init_uuid(),
{
    let r = vec![0xc7u8, 0xc7, 0x5d, 0xf0, 0xfd, 0xd9, 0x51, 0xe9, 0x8f, 0xc2, 0x29, 0x71, 0xe4, 0xac, 0xf8, 0xd2];
    assert(r@ =~= init_uuid());
    r
}

fn segment_uuid_bytes() -> (r: Vec<u8>)
    ensures
        r@ == segment_uuid(),
{
    let r = vec![0x3bu8, 0x42, 0x12, 0x92, 0x56, 0xf3, 0x5f, 0x75, 0x92, 0x36, 0x63, 0xb6, 0x9a, 0x1f, 0x52, 0xb2];
    assert(r@ =~= segment_uuid());
    r
}

/// Size of the box at `pos` (see `box_size`).
fn read_box_size(data: &[u8], pos: usize) -> (r: usize)
    ensures
        r == box_size(data@, pos as int),
{
    if pos > data.len() || data.len() - pos < 8 {
        return 0;
    }
    let s = be_u32_at(data, pos);
    if s == 0 {
        data.len() - pos
    } else if s <= 7 {
        0
    } else {
        s as usize
    }
}

/// The first "uuid" box carrying `target_uuid` (16 bytes), as
/// (payload start, box end).
fn find_uuid_box(data: &[u8], target_uuid: &[u8]) -> (r: Option<(usize, usize)>)
    requires
        target_uuid@.len() == 16,
    ensures
        r matches Some((a, b)) ==> find_uuid_box_from(data@, 0, target_uuid@) == Some((a as int, b as int)),
        r is None ==> find_uuid_box_from(data@, 0, target_uuid@) is None,
{
    let uuid_ty = uuid_type_bytes();
    let mut pos: usize = 0;
    while pos <= data.len() && data.len() - pos >= 8
        invariant
            pos <= data@.len(),
            target_uuid@.len() == 16,
            uuid_ty@ == uuid_type(),
            find_uuid_box_from(data@, 0, target_uuid@) == find_uuid_box_from(data@, pos as int, target_uuid@),
        decreases data@.len() - pos,
    {
        let size = read_box_size(data, pos);
        if size < 8 || size > data.len() - pos {
            return None;
        }
        if bytes_match(data, pos + 4, uuid_ty.as_slice()) && data.len() - pos >= 24
            && bytes_match(data, pos + 8, target_uuid) {
            return Some((pos + 24, pos + size));
        }
        pos = pos + size;
    }
    None
}

/// The first "mdat" box, as (data start, box end).
fn find_mdat_box(data: &[u8]) -> (r: Option<(usize, usize)>)
    ensures
        r matches Some((a, b)) ==> find_mdat_box_from(data@, 0) == Some((a as int, b as int)),
        r is None ==> find_mdat_box_from(data@, 0) is None,
{
    let mdat_ty = mdat_type_bytes();
    let mut pos: usize = 0;
    while pos <= data.len() && data.len() - pos >= 8
        invariant
            pos <= data@.len(),
            mdat_ty@ == mdat_type(),
            find_mdat_box_from(data@, 0) == find_mdat_box_from(data@, pos as int),
        decreases data@.len() - pos,
    {
        let size = read_box_size(data, pos);
        if size < 8 || size > data.len() - pos {
            return None;
        }
        if bytes_match(data, pos + 4, mdat_ty.as_slice()) {
            return Some((pos + 8, pos + size));
        }
        pos = pos + size;
    }
    None
}

/// `data[from..to]` copied into a vector.
fn copy_range(data: &[u8], from: usize, to: usize) -> (r: Vec<u8>)
    requires
        from <= to <= data@.len(),
    ensures
        r@ == data@.subrange(from as int, to as int),
{
    let mut out: Vec<u8> = Vec::new();
    let mut i = from;
    while i < to
        invariant
            from <= i <= to <= data@.len(),
            out@ == data@.subrange(from as int, i as int),
        decreases to - i,
    {
        out.push(data[i]);
        i += 1;
        assert(out@ =~= data@.subrange(from as int, i as int));
    }
    out
}

/// First position of the FLAC marker in `raw`.
fn find_flac_magic_exec(raw: &[u8]) -> (r: Option<usize>)
    ensures
        match r {
            Some(p) => find_flac_magic(raw@, 0) == Some(p as int),
            None => find_flac_magic(raw@, 0) is None,
        },
{
    let magic = flac_magic_bytes();
    let mut i: usize = 0;
    while i <= raw.len() && raw.len() - i >= 4
        invariant
            i <= raw@.len(),
            magic@ == flac_magic(),
            find_flac_magic(raw@, 0) == find_flac_magic(raw@, i as int),
        decreases raw@.len() - i,
    {
        if bytes_match(raw, i, magic.as_slice()) {
            return Some(i);
        }
        i += 1;
    }
    None
}

/// `(len - start) / 8 == i` when `start + 8 * i <= len < start + 8 * i + 8`.
proof fn lemma_div8(len: int, start: int, i: int)
    requires
        0 <= i,
        start + 8 * i <= len < start + 8 * i + 8,
    ensures
        (len - start) / 8 == i,
{
    assert((len - start) / 8 == i) by (nonlinear_arith)
        requires
            0 <= i,
            8 * i <= len - start < 8 * i + 8,
    ;
}

/// The segment table: up to `count` 8-byte entries from `start`, as many as
/// fit in `p`.
fn read_segment_table(p: &[u8], start: usize, count: usize) -> (r: Vec<SegmentTableEntry>)
    requires
        start <= p@.len(),
    ensures
        r@ == segment_table(p@, start as int, count as int),
{
    let mut table: Vec<SegmentTableEntry> = Vec::new();
    let mut a = start;
    let mut i: usize = 0;
    while i < count
        invariant
            0 <= i <= count,
            a == start + 8 * i,
            a <= p@.len(),
            table@ == Seq::new(i as nat, |k: int| table_entry(p@, start + 8 * k)),
        decreases count - i,
    {
        if a > p.len() || p.len() - a < 8 {
            proof {
                lemma_div8(p@.len() as int, start as int, i as int);
            }
            assert(segment_table_count(p@.len() as int, start as int, count as int) == i);
            assert(table@ =~= segment_table(p@, start as int, count as int));
            return table;
        }
        let byte_len = be_u32_at(p, a);
        let sample_count = be_u32_at(p, a + 4);
        table.push(SegmentTableEntry { byte_len, sample_count });
        a = a + 8;
        i += 1;
        assert(table@ =~= Seq::new(i as nat, |k: int| table_entry(p@, start + 8 * k)));
    }
    proof {
        assert(start + 8 * count <= p@.len());
        if start + 8 <= p@.len() {
            assert(count <= (p@.len() - start) / 8) by (nonlinear_arith)
                requires
                    0 <= start + 8 * count <= p@.len(),
                    0 <= start,
            ;
        }
    }
    assert(table@ =~= segment_table(p@, start as int, count as int));
    table
}

/// Parse the init segment's Qobuz box payload: the FLAC header (with the
/// last-metadata-block flag set) and the segment table.
fn parse_init_uuid_payload(payload: &[u8]) -> (r: Result<InitInfo, CmafError>)
    ensures
        match init_payload(payload@) {
            Some((h, t)) => r matches Ok(info) && info.flac_header@ == h && info.segment_table@ == t,
            None => r is Err,
        },
{
    if payload.len() < 28 {
        return Err(CmafError::ParseError(String::from_str("init UUID payload too short")));
    }
    let raw_len = be_u16_at(payload, RAW_LEN_OFFSET) as usize;
    let raw_end = if raw_len <= payload.len() - RAW_DATA_OFFSET { RAW_DATA_OFFSET + raw_len } else { payload.len() };
    let raw = &payload[RAW_DATA_OFFSET..raw_end];
    let flac_pos = match find_flac_magic_exec(raw) {
        Some(p) => p,
        None => {
            return Err(CmafError::ParseError(String::from_str("init UUID payload: fLaC magic not found")));
        },
    };
    if flac_pos > raw.len() || raw.len() - flac_pos < FLAC_HEADER_LEN {
        return Err(CmafError::ParseError(String::from_str("init UUID payload: STREAMINFO truncated")));
    }
    let mut flac_header = copy_range(raw, flac_pos, flac_pos + FLAC_HEADER_LEN);
    let flag_byte = flac_header[4] | 0x80u8;
    flac_header.set(4, flag_byte);
    let a = RAW_DATA_OFFSET + raw_len;
    if a + 1 > payload.len() {
        return Ok(InitInfo { flac_header, segment_table: Vec::new() });
    }
    let key_id_len = payload[a] as usize;
    let b = a + 1 + key_id_len;
    let segment_table = if b + 2 <= payload.len() {
        let seg_count = be_u16_at(payload, b) as usize;
        read_segment_table(payload, b + 2, seg_count)
    } else {
        Vec::new()
    };
    Ok(InitInfo { flac_header, segment_table })
}

/// Parse the init segment (segment 0): the FLAC header and the segment table
/// of its Qobuz box. An error when there is no such box or its payload holds
/// no complete FLAC header, or when the box is too small to hold its own
/// header.
pub fn parse_init_segment(data: &[u8]) -> (r: Result<InitInfo, CmafError>)
    ensures
        match find_uuid_box_from(data@, 0, init_uuid()) {
            None => r is Err,
            Some((a, b)) => if a > b {
                r is Err
            } else {
                match init_payload(data@.subrange(a, b)) {
                    Some((h, t)) => r matches Ok(info) && info.flac_header@ == h && info.segment_table@ == t,
                    None => r is Err,
                }
            },
        },
{
    let uuid = init_uuid_bytes();
    match find_uuid_box(data, uuid.as_slice()) {
        Some((payload_start, box_end)) => {
            proof { lemma_find_uuid_box_bounds(data@, 0, init_uuid()); }
            if payload_start > box_end {
                return Err(CmafError::ParseError(String::from_str("init segment: QBZ_INIT_UUID box truncated")));
            }
            parse_init_uuid_payload(&data[payload_start..box_end])
        },
        None => Err(CmafError::ParseError(String::from_str("init segment: QBZ_INIT_UUID box not found"))),
    }
}

/// A found box ends within the data.
proof fn lemma_find_uuid_box_bounds(data: Seq<u8>, pos: int, uuid: Seq<u8>)
    ensures
        find_uuid_box_from(data, pos, uuid) matches Some((a, b)) ==> 0 <= a && b <= data.len(),
    decreases data.len() - pos,
{
    if pos >= 0 && pos + 8 <= data.len() {
        let size = box_size(data, pos);
        if size >= 8 && pos + size <= data.len() {
            lemma_find_uuid_box_bounds(data, pos + size, uuid);
        }
    }
}

/// The result of walking all top-level boxes of an audio segment.
fn scan_segment(data: &[u8]) -> (r: (Option<usize>, usize))
    ensures
        ({
            let (u, m) = scan_segment_boxes(data@, 0, None, data@.len() as int);
            &&& r.1 == m
            &&& match r.0 {
                Some(x) => u == Some(x as int),
                None => u is None,
            }
        }),
{
    let uuid_ty = uuid_type_bytes();
    let mdat_ty = mdat_type_bytes();
    let seg_uuid = segment_uuid_bytes();
    let mut uuid_box_start: Option<usize> = None;
    let mut mdat_end = data.len();
    let mut pos: usize = 0;
    while pos <= data.len() && data.len() - pos >= 8
        invariant
            pos <= data@.len(),
            mdat_end <= data@.len(),
            uuid_ty@ == uuid_type(),
            mdat_ty@ == mdat_type(),
            seg_uuid@ == segment_uuid(),
            scan_segment_boxes(data@, 0, None, data@.len() as int) == scan_segment_boxes(
                data@,
                pos as int,
                match uuid_box_start {
                    Some(x) => Some(x as int),
                    None => None,
                },
                mdat_end as int,
            ),
        decreases data@.len() - pos,
    {
        let size = read_box_size(data, pos);
        if size < 8 || size > data.len() - pos {
            return (uuid_box_start, mdat_end);
        }
        if bytes_match(data, pos + 4, uuid_ty.as_slice()) && data.len() - pos >= 24 {
            if bytes_match(data, pos + 8, seg_uuid.as_slice()) {
                uuid_box_start = Some(pos);
            }
        } else if bytes_match(data, pos + 4, mdat_ty.as_slice()) {
            mdat_end = pos + size;
        }
        pos = pos + size;
    }
    (uuid_box_start, mdat_end)
}

/// The message for a frame table of `frame_count` entries of `entry_size`
/// bytes that does not fit in the segment.
pub open spec fn not_enough_frames_text(frame_count: nat, entry_size: nat) -> Seq<char> {
    "segment UUID: not enough data for "@ + decimal(frame_count) + " entries of "@ + decimal(entry_size)
        + " bytes"@
}

fn not_enough_frames_message(frame_count: u32, entry_size: u32) -> (r: String)
    ensures
        r@ == not_enough_frames_text(frame_count as nat, entry_size as nat),
{
    let mut m = String::from_str("segment UUID: not enough data for ");
    push_decimal(&mut m, frame_count);
    m.append(" entries of ");
    push_decimal(&mut m, entry_size);
    m.append(" bytes");
    m
}

/// Crypto info of the Qobuz box at `uuid_box_start`: the data offset
/// (relative to the box start), `mdat_end` and the frame entries.
fn parse_segment_uuid_payload(data: &[u8], uuid_box_start: usize, mdat_end: usize) -> (r: Result<SegmentCrypto, CmafError>)
    requires
        uuid_box_start <= data@.len(),
    ensures
        segment_payload_ok(data@, uuid_box_start as int)
            && uuid_box_start + be_u32(data@, uuid_box_start + 28) <= usize::MAX ==> (r matches Ok(c) && {
            let base = uuid_box_start + 24;
            let iv_size = data@[base + 8] as int;
            let es = 8 + iv_size;
            &&& c.data_offset == uuid_box_start + be_u32(data@, base + 4)
            &&& c.mdat_end == mdat_end
            &&& c.entries@.len() == be_u24(data@, base + 9)
            &&& forall|i: int| 0 <= i < c.entries@.len() ==> frame_entry_ok(
                #[trigger] c.entries@[i],
                data@,
                base + 12 + i * es,
                iv_size,
            )
        }),
        !(segment_payload_ok(data@, uuid_box_start as int)
            && uuid_box_start + be_u32(data@, uuid_box_start + 28) <= usize::MAX) ==> r is Err,
{
    if data.len() - uuid_box_start < 36 {
        return Err(CmafError::ParseError(String::from_str("segment UUID payload too short for header")));
    }
    let base = uuid_box_start + 24;
    let data_offset_raw = be_u32_at(data, base + 4);
    let data_offset = match uuid_box_start.checked_add(data_offset_raw as usize) {
        Some(v) => v,
        None => {
            return Err(CmafError::ParseError(String::from_str("segment UUID: data offset out of range")));
        },
    };
    let iv_size = data[base + 8] as usize;
    let frame_count = be_u24_at(data, base + 9) as usize;
    let entry_size = 8 + iv_size;
    let start = base + 12;
    let avail = (data.len() - start) as u64;
    assert((frame_count as u64) * (entry_size as u64) <= 16777216 * 263) by (nonlinear_arith)
        requires
            frame_count < 16777216,
            entry_size <= 263,
    ;
    if (frame_count as u64) * (entry_size as u64) > avail {
        return Err(CmafError::ParseError(not_enough_frames_message(frame_count as u32, entry_size as u32)));
    }
    let copy_len = if iv_size < 8 { iv_size } else { 8 };
    let mut entries: Vec<FrameEntry> = Vec::new();
    let mut a = start;
    let mut i: usize = 0;
    while i < frame_count
        invariant
            0 <= i <= frame_count,
            a == start + i * entry_size,
            start + frame_count * entry_size <= data@.len(),
            data@.len() <= usize::MAX,
            entry_size == 8 + iv_size,
            copy_len == (if iv_size < 8 { iv_size } else { 8 }),
            entries@.len() == i,
            forall|k: int| 0 <= k < i ==> frame_entry_ok(
                #[trigger] entries@[k],
                data@,
                start + k * entry_size,
                iv_size as int,
            ),
        decreases frame_count - i,
    {
        assert(a + entry_size <= data@.len()) by (nonlinear_arith)
            requires
                a == start + i * entry_size,
                i < frame_count,
                start + frame_count * entry_size <= data@.len(),
        ;
        let size = be_u32_at(data, a);
        let flags = be_u16_at(data, a + 6);
        let mut iv = [0u8; 8];
        let mut k: usize = 0;
        while k < copy_len
            invariant
                0 <= k <= copy_len <= 8,
                copy_len <= iv_size,
                a + 8 + copy_len <= data@.len(),
                data@.len() <= usize::MAX,
                forall|j: int| 0 <= j < k ==> iv@[j] == data@[a + 8 + j],
                forall|j: int| k <= j < 8 ==> iv@[j] == 0u8,
            decreases copy_len - k,
        {
            iv[k] = data[a + 8 + k];
            k += 1;
        }
        let e = FrameEntry { size, flags, iv };
        assert(frame_entry_ok(e, data@, start + i * entry_size, iv_size as int));
        entries.push(e);
        assert(a + entry_size == start + (i + 1) * entry_size) by (nonlinear_arith)
            requires
                a == start + i * entry_size,
        ;
        a = a + entry_size;
        i += 1;
    }
    Ok(SegmentCrypto { data_offset, mdat_end, entries })
}

/// Parse an audio segment: the per-frame crypto info of its Qobuz box. The
/// frame data ends at the end of the last "mdat" box (the end of the data
/// when there is none). An error when there is no such box or its frame
/// table does not fit.
pub fn parse_segment_crypto(data: &[u8]) -> (r: Result<SegmentCrypto, CmafError>)
    ensures
        ({
            let (u, m) = scan_segment_boxes(data@, 0, None, data@.len() as int);
            match u {
                None => r is Err,
                Some(box_start) => if segment_payload_ok(data@, box_start)
                    && box_start + be_u32(data@, box_start + 28) <= usize::MAX {
                    r matches Ok(c) && {
                        let base = box_start + 24;
                        let iv_size = data@[base + 8] as int;
                        &&& c.data_offset == box_start + be_u32(data@, base + 4)
                        &&& c.mdat_end == m
                        &&& c.entries@.len() == be_u24(data@, base + 9)
                        &&& forall|i: int| 0 <= i < c.entries@.len() ==> frame_entry_ok(
                            #[trigger] c.entries@[i],
                            data@,
                            base + 12 + i * (8 + iv_size),
                            iv_size,
                        )
                    }
                } else {
                    r is Err
                },
            }
        }),
{
    let (uuid_box_start, mdat_end) = scan_segment(data);
    match uuid_box_start {
        Some(box_start) => {
            proof { lemma_scan_bounds(data@, 0, None, data@.len() as int); }
            parse_segment_uuid_payload(data, box_start, mdat_end)
        },
        None => Err(CmafError::ParseError(String::from_str("audio segment: QBZ_SEGMENT_UUID box not found"))),
    }
}

/// A box start found by the scan lies within the data.
proof fn lemma_scan_bounds(data: Seq<u8>, pos: int, u: Option<int>, m: int)
    requires
        u matches Some(x) ==> 0 <= x <= data.len(),
    ensures
        scan_segment_boxes(data, pos, u, m).0 matches Some(x) ==> 0 <= x <= data.len(),
    decreases data.len() - pos,
{
    if pos >= 0 && pos + 8 <= data.len() {
        let size = box_size(data, pos);
        if size >= 8 && pos + size <= data.len() {
            if bytes_at(data, pos + 4, uuid_type()) && pos + 24 <= data.len() {
                let u2 = if bytes_at(data, pos + 8, segment_uuid()) { Some(pos) } else { u };
                lemma_scan_bounds(data, pos + size, u2, m);
            } else if bytes_at(data, pos + 4, mdat_type()) {
                lemma_scan_bounds(data, pos + size, u, pos + size);
            } else {
                lemma_scan_bounds(data, pos + size, u, m);
            }
        }
    }
}

/// Whether `data` looks like an ISO base media (MP4) file: at least 12 bytes
/// with the `ftyp` box type at offset 4.
pub fn is_isomp4(data: &[u8]) -> (r: bool)
    ensures
        r == (data@.len() >= 12 && data@.subrange(4, 8) == seq![0x66u8, 0x74u8, 0x79u8, 0x70u8]),
{
    if data.len() < 12 {
        return false;
    }
    let hit = data[4] == 0x66 && data[5] == 0x74 && data[6] == 0x79 && data[7] == 0x70;
    assert(hit == (data@.subrange(4, 8) =~= seq![0x66u8, 0x74u8, 0x79u8, 0x70u8]));
    hit
}

/// What `find_flac_magic` finds is the FLAC marker.
proof fn lemma_find_flac_magic(s: Seq<u8>, from: int)
    ensures
        find_flac_magic(s, from) matches Some(p) ==> bytes_at(s, p, flac_magic()),
    decreases s.len() - from,
{
    if 0 <= from && from + 4 <= s.len() && !bytes_at(s, from, flac_magic()) {
        lemma_find_flac_magic(s, from + 1);
    }
}

/// The FLAC header taken from an init segment is a complete one: the
/// `fLaC` marker, the STREAMINFO block header and its 34 bytes (42 bytes),
/// with the last-metadata-block flag set, so that it stands alone before
/// the audio frames.
pub proof fn lemma_init_header_is_standalone(p: Seq<u8>)
    ensures
        init_payload(p) matches Some((h, t)) ==> h.len() == 42 && h.subrange(0, 4) == flac_magic()
            && h[4] & 0x80u8 == 0x80u8,
{
    if let Some((h, t)) = init_payload(p) {
        let raw_len = be_u16(p, RAW_LEN_OFFSET as int);
        let raw_end = if raw_len <= p.len() - RAW_DATA_OFFSET { RAW_DATA_OFFSET + raw_len } else { p.len() as int };
        let raw = p.subrange(RAW_DATA_OFFSET as int, raw_end);
        lemma_find_flac_magic(raw, 0);
        let fp = find_flac_magic(raw, 0).unwrap();
        let h0 = raw.subrange(fp, fp + 42);
        assert(h0.subrange(0, 4) =~= raw.subrange(fp, fp + 4));
        let b = h0[4];
        assert((b | 0x80u8) & 0x80u8 == 0x80u8) by (bit_vector);
        assert(h.subrange(0, 4) =~= h0.subrange(0, 4));
    }
}

} // verus!
