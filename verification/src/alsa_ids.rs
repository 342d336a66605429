//! ALSA device ids: recognising alias shapes, extracting card names,
//! rewriting between the unstable `hw:N,M` form and the stable
//! `front:CARD=<name>,DEV=<n>` form, and reading the card table and the
//! sample-rate lists that `/proc/asound` publishes.
//!
//! The `/proc/asound` contents are read by the caller and handed in as a
//! card table (`ProcCardInfo`); everything here is computation on text.

use vstd::prelude::*;
use crate::text::{
    all_digits, all_digits_in, before_char, contains_at, contains_text, find_char, find_char_from,
    find_from, find_text, has_prefix, has_prefix_at, lemma_find_char_shift, lemma_find_from_bounds,
    lemma_find_from_general,
    parse_u32, parse_u32_in, str_eq, strip_all_prefix, strip_all_prefix_at, substring, text_eq_at,
    to_chars, trim, trim_bounds, trim_start_char,
};

verus! {

/// A PCM playback device of a card.
#[derive(Debug, Clone)]
pub struct ProcPcmInfo {
    /// Device number within the card.
    pub device_num: String,
    /// Device name (such as "USB Audio" or "HDMI 0").
    pub name: String,
}

/// A sound card as `/proc/asound` describes it.
#[derive(Debug, Clone)]
pub struct ProcCardInfo {
    /// Card number (0, 1, 2, ...).
    pub number: String,
    /// Short name used in ALSA device ids (such as "C20" or "NVidia").
    pub short_name: String,
    /// Long descriptive name.
    pub long_name: String,
    /// PCM playback devices of the card.
    pub pcm_playback_devices: Vec<ProcPcmInfo>,
    /// The text of the card's `stream0` file, when it could be read (only
    /// USB-audio cards publish one).
    pub stream0: Option<String>,
}

/// The alias prefixes that carry a `CARD=<name>` component.
pub open spec fn is_alias_id(s: Seq<char>) -> bool {
    ||| has_prefix(s, "front:CARD="@)
    ||| has_prefix(s, "sysdefault:CARD="@)
    ||| has_prefix(s, "iec958:CARD="@)
    ||| has_prefix(s, "hdmi:CARD="@)
}

/// The PCM ids that device enumeration ever looks up.
pub open spec fn known_pcm_id(s: Seq<char>) -> bool {
    s == "default"@ || is_alias_id(s)
}

/// The text between the first `CARD=` and the next one (or the end): the
/// second piece of splitting `s` at `CARD=`.
pub open spec fn after_card(s: Seq<char>) -> Option<Seq<char>> {
    match find_from(s, "CARD="@, 0) {
        None => None,
        Some(m) => Some(s.subrange(m + 5, match find_from(s, "CARD="@, m + 5) {
            Some(n) => n,
            None => s.len() as int,
        })),
    }
}

/// `s` after its first `c` (`None` when there is none).
pub open spec fn after_char(s: Seq<char>, c: char) -> Option<Seq<char>> {
    match find_char_from(s, c, 0) {
        Some(k) => Some(s.subrange(k + 1, s.len() as int)),
        None => None,
    }
}

/// The `hw:CARD=<name>,DEV=<n>` fallback of an alias id.
pub open spec fn hw_fallback(s: Seq<char>) -> Option<Seq<char>> {
    if !is_alias_id(s) {
        None
    } else {
        match after_card(s) {
            None => None,
            Some(seg) => {
                let card = before_char(seg, ',');
                let dev_part = match after_char(seg, ',') {
                    Some(rest) => rest,
                    None => "DEV=0"@,
                };
                let dev = if has_prefix(dev_part, "DEV="@) {
                    dev_part.subrange(4, dev_part.len() as int)
                } else {
                    "0"@
                };
                Some("hw:CARD="@ + card + ",DEV="@ + dev)
            },
        }
    }
}

/// The position of the first card in `cards` (from `i` on) whose short name
/// is `name`.
pub open spec fn card_named(cards: Seq<ProcCardInfo>, name: Seq<char>, i: int) -> Option<int>
    decreases cards.len() - i,
{
    if i < 0 || i >= cards.len() {
        None
    } else if cards[i].short_name@ == name {
        Some(i)
    } else {
        card_named(cards, name, i + 1)
    }
}

/// The position of the first card in `cards` (from `i` on) numbered `number`.
pub open spec fn card_numbered(cards: Seq<ProcCardInfo>, number: Seq<char>, i: int) -> Option<int>
    decreases cards.len() - i,
{
    if i < 0 || i >= cards.len() {
        None
    } else if cards[i].number@ == number {
        Some(i)
    } else {
        card_numbered(cards, number, i + 1)
    }
}

/// The position of the last card among the first `n` of `cards` numbered
/// `number` (the entry that a map keyed by number keeps).
pub open spec fn last_card_numbered(cards: Seq<ProcCardInfo>, number: Seq<char>, n: int) -> Option<int>
    decreases n,
{
    if n <= 0 || n > cards.len() {
        None
    } else if cards[n - 1].number@ == number {
        Some(n - 1)
    } else {
        last_card_numbered(cards, number, n - 1)
    }
}

/// The card number of the first card named `name`.
pub open spec fn card_number_by_name(cards: Seq<ProcCardInfo>, name: Seq<char>) -> Option<Seq<char>> {
    match card_named(cards, name, 0) {
        Some(i) => Some(cards[i].number@),
        None => None,
    }
}

/// The card name that a device id refers to: the `CARD=` component of an
/// alias id, or the short name of the card numbered in a `hw:`/`plughw:` id.
pub open spec fn card_name_of(s: Seq<char>, cards: Seq<ProcCardInfo>) -> Option<Seq<char>> {
    if is_alias_id(s) {
        match after_card(s) {
            Some(seg) => Some(before_char(seg, ',')),
            None => None,
        }
    } else if has_prefix(s, "hw:"@) || has_prefix(s, "plughw:"@) {
        let rest = if has_prefix(s, "hw:"@) { s.subrange(3, s.len() as int) } else { s.subrange(7, s.len() as int) };
        match card_numbered(cards, before_char(rest, ','), 0) {
            Some(i) => Some(cards[i].short_name@),
            None => None,
        }
    } else {
        None
    }
}

/// The stable form of a device id: `hw:N,M` becomes
/// `front:CARD=<short name of card N>,DEV=M`; anything else is unchanged.
pub open spec fn stable_id(s: Seq<char>, cards: Seq<ProcCardInfo>) -> Seq<char> {
    if has_prefix(s, "front:CARD="@) || has_prefix(s, "plughw:"@) || !has_prefix(s, "hw:"@) {
        s
    } else {
        let stripped = s.subrange(3, s.len() as int);
        match after_char(stripped, ',') {
            None => s,
            Some(rest) => {
                let card_num = before_char(stripped, ',');
                let device_num = before_char(rest, ',');
                match last_card_numbered(cards, card_num, cards.len() as int) {
                    Some(i) => "front:CARD="@ + cards[i].short_name@ + ",DEV="@ + device_num,
                    None => s,
                }
            },
        }
    }
}

/// The current `hw:N,M` form of a stable `front:CARD=<name>,DEV=M` id;
/// other ids are unchanged; `None` when the named card is absent.
pub open spec fn current_hw_id(s: Seq<char>, cards: Seq<ProcCardInfo>) -> Option<Seq<char>> {
    if !has_prefix(s, "front:CARD="@) {
        Some(s)
    } else {
        let stripped = s.subrange(11, s.len() as int);
        let card_name = before_char(stripped, ',');
        let dev = match after_char(stripped, ',') {
            Some(rest) => {
                let second = before_char(rest, ',');
                if has_prefix(second, "DEV="@) { second.subrange(4, second.len() as int) } else { "0"@ }
            },
            None => "0"@,
        };
        match card_number_by_name(cards, card_name) {
            Some(num) => Some("hw:"@ + num + ","@ + dev),
            None => None,
        }
    }
}

/// Whether `name` is a PCM id that device enumeration looks up: `default`
/// and the `sysdefault:`, `front:`, `hdmi:` and `iec958:` card aliases.
pub fn is_known_pcm_id(name: &str) -> (r: bool)
    ensures
        r == known_pcm_id(name@),
{
    if str_eq(name, "default") {
        return true;
    }
    let v = to_chars(name);
    let n = v.len();
    assert(v@.subrange(0, n as int) =~= name@);
    has_prefix_at(&v, 0, n, "sysdefault:CARD=") || has_prefix_at(&v, 0, n, "front:CARD=")
        || has_prefix_at(&v, 0, n, "hdmi:CARD=") || has_prefix_at(&v, 0, n, "iec958:CARD=")
}

fn is_alias_chars(v: &Vec<char>) -> (r: bool)
    ensures
        r == is_alias_id(v@),
{
    let n = v.len();
    assert(v@.subrange(0, n as int) =~= v@);
    has_prefix_at(v, 0, n, "front:CARD=") || has_prefix_at(v, 0, n, "sysdefault:CARD=")
        || has_prefix_at(v, 0, n, "iec958:CARD=") || has_prefix_at(v, 0, n, "hdmi:CARD=")
}

/// The bounds of the text after the first `CARD=` up to the next one.
fn after_card_bounds(v: &Vec<char>) -> (r: Option<(usize, usize)>)
    ensures
        match r {
            Some((a, b)) => a <= b <= v@.len() && after_card(v@) == Some(v@.subrange(a as int, b as int)),
            None => after_card(v@) is None,
        },
{
    proof { reveal_strlit("CARD="); }
    let n = v.len();
    assert(v@.subrange(0, n as int) =~= v@);
    match find_text(v, 0, n, "CARD=") {
        None => None,
        Some(m) => {
            proof { lemma_find_from_bounds(v@, "CARD="@, 0); }
            let b = match find_text(v, m + 5, n, "CARD=") {
                Some(k) => {
                    proof { lemma_find_from_bounds(v@, "CARD="@, m + 5); }
                    k
                },
                None => n,
            };
            Some((m + 5, b))
        },
    }
}

/// The end of `v[start..end]` before its first `c`, and the position of that
/// `c` if there is one.
fn split_at_char(v: &Vec<char>, start: usize, end: usize, c: char) -> (r: (usize, Option<usize>))
    requires
        start <= end <= v@.len(),
    ensures
        start <= r.0 <= end,
        v@.subrange(start as int, r.0 as int) == before_char(v@.subrange(start as int, end as int), c),
        match r.1 {
            Some(k) => k == r.0 && k < end && after_char(v@.subrange(start as int, end as int), c)
                == Some(v@.subrange(k + 1, end as int)),
            None => r.0 == end && after_char(v@.subrange(start as int, end as int), c) is None,
        },
{
    let found = find_char(v, start, end, c);
    let ghost seg = v@.subrange(start as int, end as int);
    proof {
        lemma_find_char_shift(v@.subrange(0, end as int), c, start as int);
        assert(v@.subrange(0, end as int).subrange(start as int, end as int) =~= seg);
    }
    match found {
        Some(k) => {
            assert(v@.subrange(start as int, k as int) =~= seg.subrange(0, k - start));
            assert(v@.subrange(k + 1, end as int) =~= seg.subrange(k - start + 1, seg.len() as int));
            (k, Some(k))
        },
        None => (end, None),
    }
}

/// The raw-kernel `hw:CARD=<name>,DEV=<n>` id to fall back to for an alias
/// id (`front:`, `sysdefault:`, `iec958:` or `hdmi:` with `CARD=`); `DEV`
/// defaults to 0. `None` for ids of any other shape.
pub fn build_hw_fallback_id(device_id: &str) -> (r: Option<String>)
    ensures
        match r {
            Some(x) => hw_fallback(device_id@) == Some(x@),
            None => hw_fallback(device_id@) is None,
        },
{
    let v = to_chars(device_id);
    if !is_alias_chars(&v) {
        return None;
    }
    let (a, b) = match after_card_bounds(&v) {
        Some(p) => p,
        None => {
            return None;
        },
    };
    let ghost seg = v@.subrange(a as int, b as int);
    let (stop, comma) = split_at_char(&v, a, b, ',');
    let card = substring(device_id, a, stop);
    let mut out = String::from_str("hw:CARD=");
    out.append(card.as_str());
    out.append(",DEV=");
    proof {
        reveal_strlit("DEV=");
        reveal_strlit("DEV=0");
        reveal_strlit("0");
    }
    match comma {
        Some(k) => {
            let ghost dev_part = v@.subrange(k + 1, b as int);
            if has_prefix_at(&v, k + 1, b, "DEV=") {
                let dev = substring(device_id, k + 5, b);
                assert(dev@ =~= dev_part.subrange(4, dev_part.len() as int));
                out.append(dev.as_str());
            } else {
                out.append("0");
            }
        },
        None => {
            assert("DEV=0"@.subrange(0, 4) =~= "DEV="@);
            assert(has_prefix("DEV=0"@, "DEV="@));
            assert("DEV=0"@.subrange(4, 5) =~= "0"@);
            out.append("0");
        },
    }
    Some(out)
}

/// The position of the first card (from `i` on) whose field, chosen by
/// `by_name`, equals `key`.
fn find_card(cards: &Vec<ProcCardInfo>, key: &str, by_name: bool) -> (r: Option<usize>)
    ensures
        by_name ==> match r {
            Some(i) => card_named(cards@, key@, 0) == Some(i as int),
            None => card_named(cards@, key@, 0) is None,
        },
        !by_name ==> match r {
            Some(i) => card_numbered(cards@, key@, 0) == Some(i as int),
            None => card_numbered(cards@, key@, 0) is None,
        },
        r matches Some(i) ==> i < cards@.len(),
{
    let mut i: usize = 0;
    while i < cards.len()
        invariant
            0 <= i <= cards@.len(),
            by_name ==> card_named(cards@, key@, 0) == card_named(cards@, key@, i as int),
            !by_name ==> card_numbered(cards@, key@, 0) == card_numbered(cards@, key@, i as int),
        decreases cards@.len() - i,
    {
        let hit = if by_name {
            str_eq(cards[i].short_name.as_str(), key)
        } else {
            str_eq(cards[i].number.as_str(), key)
        };
        if hit {
            return Some(i);
        }
        i += 1;
    }
    None
}

/// The card number of the first card whose short name is `short_name`.
pub fn find_card_number_by_name(short_name: &str, cards: &Vec<ProcCardInfo>) -> (r: Option<String>)
    ensures
        match r {
            Some(x) => card_number_by_name(cards@, short_name@) == Some(x@),
            None => card_number_by_name(cards@, short_name@) is None,
        },
{
    match find_card(cards, short_name, true) {
        Some(i) => Some(cards[i].number.clone()),
        None => None,
    }
}

/// The card name a device id refers to: the `CARD=` component of an alias
/// id, or, for `hw:N,M` and `plughw:N,M`, the short name of card `N` in
/// `cards`. `None` for other ids and for unknown card numbers.
pub fn extract_card_name_from_device(device_id: &str, cards: &Vec<ProcCardInfo>) -> (r: Option<String>)
    ensures
        match r {
            Some(x) => card_name_of(device_id@, cards@) == Some(x@),
            None => card_name_of(device_id@, cards@) is None,
        },
{
    let v = to_chars(device_id);
    let n = v.len();
    assert(v@.subrange(0, n as int) =~= v@);
    if is_alias_chars(&v) {
        let (a, b) = match after_card_bounds(&v) {
            Some(p) => p,
            None => {
                return None;
            },
        };
        let (stop, _comma) = split_at_char(&v, a, b, ',');
        return Some(substring(device_id, a, stop));
    }
    let is_hw = has_prefix_at(&v, 0, n, "hw:");
    let is_plughw = has_prefix_at(&v, 0, n, "plughw:");
    if !is_hw && !is_plughw {
        return None;
    }
    proof {
        reveal_strlit("hw:");
        reveal_strlit("plughw:");
    }
    let start: usize = if is_hw { 3 } else { 7 };
    assert(v@.subrange(start as int, n as int) =~= (if has_prefix(v@, "hw:"@) {
        v@.subrange(3, v@.len() as int)
    } else {
        v@.subrange(7, v@.len() as int)
    }));
    let (stop, _comma) = split_at_char(&v, start, n, ',');
    let card_num = substring(device_id, start, stop);
    match find_card(cards, card_num.as_str(), false) {
        Some(i) => Some(cards[i].short_name.clone()),
        None => None,
    }
}

/// Whether the card a device id refers to is listed in `cards` by short
/// name. Ids without a card component are never present.
pub fn is_card_present_in_proc(device_id: &str, cards: &Vec<ProcCardInfo>) -> (r: bool)
    ensures
        r == (match card_name_of(device_id@, cards@) {
            Some(name) => card_named(cards@, name, 0) is Some,
            None => false,
        }),
{
    match extract_card_name_from_device(device_id, cards) {
        Some(card) => find_card_number_by_name(card.as_str(), cards).is_some(),
        None => false,
    }
}

/// The position of the last card numbered `number` (the entry that a map
/// keyed by card number keeps).
fn find_last_card_numbered(cards: &Vec<ProcCardInfo>, number: &str) -> (r: Option<usize>)
    ensures
        match r {
            Some(i) => last_card_numbered(cards@, number@, cards@.len() as int) == Some(i as int)
                && i < cards@.len(),
            None => last_card_numbered(cards@, number@, cards@.len() as int) is None,
        },
{
    let mut n: usize = cards.len();
    while n > 0
        invariant
            0 <= n <= cards@.len(),
            last_card_numbered(cards@, number@, cards@.len() as int) == last_card_numbered(cards@, number@, n as int),
        decreases n,
    {
        if str_eq(cards[n - 1].number.as_str(), number) {
            return Some(n - 1);
        }
        n -= 1;
    }
    None
}

/// Convert an unstable `hw:N,M` id to the stable `front:CARD=<name>,DEV=M`
/// form, naming card `N` by its short name in `cards`. `front:`, `plughw:`,
/// non-`hw:` ids, ids without a device part and unknown cards are unchanged.
pub fn normalize_device_id_to_stable(device_id: &str, cards: &Vec<ProcCardInfo>) -> (r: String)
    ensures
        r@ == stable_id(device_id@, cards@),
{
    let v = to_chars(device_id);
    let n = v.len();
    assert(v@.subrange(0, n as int) =~= v@);
    if has_prefix_at(&v, 0, n, "front:CARD=") || has_prefix_at(&v, 0, n, "plughw:")
        || !has_prefix_at(&v, 0, n, "hw:") {
        return String::from_str(device_id);
    }
    proof { reveal_strlit("hw:"); }
    let (stop, comma) = split_at_char(&v, 3, n, ',');
    let k = match comma {
        Some(k) => k,
        None => {
            return String::from_str(device_id);
        },
    };
    let (stop2, _c2) = split_at_char(&v, k + 1, n, ',');
    let card_num = substring(device_id, 3, stop);
    match find_last_card_numbered(cards, card_num.as_str()) {
        Some(i) => {
            let device_num = substring(device_id, k + 1, stop2);
            let mut out = String::from_str("front:CARD=");
            out.append(cards[i].short_name.as_str());
            out.append(",DEV=");
            out.append(device_num.as_str());
            out
        },
        None => String::from_str(device_id),
    }
}

/// The current `hw:N,M` id of a stable `front:CARD=<name>,DEV=M` id, with
/// `N` the number of the first card named `<name>` in `cards` (`DEV`
/// defaults to 0); other ids unchanged; `None` when the card is absent.
pub fn resolve_stable_to_current_hw(device_id: &str, cards: &Vec<ProcCardInfo>) -> (r: Option<String>)
    ensures
        match r {
            Some(x) => current_hw_id(device_id@, cards@) == Some(x@),
            None => current_hw_id(device_id@, cards@) is None,
        },
{
    let v = to_chars(device_id);
    let n = v.len();
    assert(v@.subrange(0, n as int) =~= v@);
    if !has_prefix_at(&v, 0, n, "front:CARD=") {
        return Some(String::from_str(device_id));
    }
    proof {
        reveal_strlit("front:CARD=");
        reveal_strlit("DEV=");
        reveal_strlit("0");
    }
    let (stop, comma) = split_at_char(&v, 11, n, ',');
    let card_name = substring(device_id, 11, stop);
    let dev = match comma {
        Some(k) => {
            let (stop2, _c2) = split_at_char(&v, k + 1, n, ',');
            let ghost second = v@.subrange(k + 1, stop2 as int);
            if has_prefix_at(&v, k + 1, stop2, "DEV=") {
                let d = substring(device_id, k + 5, stop2);
                assert(d@ =~= second.subrange(4, second.len() as int));
                d
            } else {
                String::from_str("0")
            }
        },
        None => String::from_str("0"),
    };
    match find_card_number_by_name(card_name.as_str(), cards) {
        Some(num) => {
            let mut out = String::from_str("hw:");
            out.append(num.as_str());
            out.append(",");
            out.append(dev.as_str());
            Some(out)
        },
        None => None,
    }
}

/// Where the text line (or comma-separated piece) starting at `pos` ends.
pub open spec fn piece_end(s: Seq<char>, c: char, pos: int) -> int {
    match find_char_from(s, c, pos) {
        Some(k) => k,
        None => s.len() as int,
    }
}

/// `acc` with `r` added at the end unless it is already there.
pub open spec fn add_new(acc: Seq<u32>, r: u32) -> Seq<u32> {
    if acc.contains(r) { acc } else { acc.push(r) }
}

/// The rates of a comma-separated list `rs`, from `pos` on, added in order
/// to `acc`: each trimmed piece that parses as a `u32` and is new.
pub open spec fn collect_rates(rs: Seq<char>, pos: int, acc: Seq<u32>) -> Seq<u32>
    decreases rs.len() + 1 - pos,
{
    if pos < 0 || pos > rs.len() {
        acc
    } else {
        proof {
            lemma_piece_end_bounds(rs, ',', pos);
        }
        let e = piece_end(rs, ',', pos);
        let acc2 = match parse_u32(trim(rs.subrange(pos, e))) {
            Some(r) => add_new(acc, r),
            None => acc,
        };
        if e < rs.len() {
            collect_rates(rs, e + 1, acc2)
        } else {
            acc2
        }
    }
}

/// The rates listed on the `Rates:` lines of the playback sections of a
/// `stream0` text, from the line starting at `pos` on, in order of first
/// appearance; `None` when such a line says the rate is continuous.
pub open spec fn scan_stream0(s: Seq<char>, pos: int, in_playback: bool, acc: Seq<u32>) -> Option<Seq<u32>>
    decreases s.len() + 1 - pos,
{
    if pos < 0 || pos > s.len() {
        Some(acc)
    } else {
        proof {
            lemma_piece_end_bounds(s, '\n', pos);
        }
        let e = piece_end(s, '\n', pos);
        let t = trim(s.subrange(pos, e));
        let pb = if t == "Playback:"@ { true } else if t == "Capture:"@ { false } else { in_playback };
        let step = if pb && has_prefix(t, "Rates:"@) {
            let rs = trim(strip_all_prefix(t, "Rates:"@));
            if contains_text(rs, "continuous"@) {
                None
            } else {
                Some(collect_rates(rs, 0, acc))
            }
        } else {
            Some(acc)
        };
        match step {
            None => None,
            Some(a2) => if e < s.len() {
                scan_stream0(s, e + 1, pb, a2)
            } else {
                Some(a2)
            },
        }
    }
}

/// The playback rates of a `stream0` text: `None` when they are continuous
/// or none is listed.
pub open spec fn stream0_rates(s: Seq<char>) -> Option<Seq<u32>> {
    match scan_stream0(s, 0, false, Seq::empty()) {
        Some(acc) => if acc.len() == 0 { None } else { Some(acc) },
        None => None,
    }
}

/// Whether `v` is in strictly increasing order.
pub open spec fn strictly_sorted(v: Seq<u32>) -> bool {
    forall|i: int, j: int| 0 <= i < j < v.len() ==> v[i] < v[j]
}

/// Whether `v` holds exactly the values of `acc`, in increasing order.
pub open spec fn sorted_values_of(v: Seq<u32>, acc: Seq<u32>) -> bool {
    strictly_sorted(v) && forall|x: u32| v.contains(x) <==> acc.contains(x)
}

/// The first position of `c` in `v[start..end]`, or `end`.
pub fn piece_end_at(v: &Vec<char>, start: usize, end: usize, c: char) -> (r: usize)
    requires
        start <= end <= v@.len(),
    ensures
        start <= r <= end,
        r == piece_end(v@.subrange(0, end as int), c, start as int),
        r < end ==> v@[r as int] == c,
{
    match find_char(v, start, end, c) {
        Some(k) => k,
        None => end,
    }
}

/// Add `r` to `acc` unless it is already there.
fn push_new(acc: &mut Vec<u32>, r: u32)
    ensures
        final(acc)@ == add_new(old(acc)@, r),
{
    let mut i: usize = 0;
    while i < acc.len()
        invariant
            0 <= i <= acc@.len(),
            forall|k: int| 0 <= k < i ==> acc@[k] != r,
        decreases acc@.len() - i,
    {
        if acc[i] == r {
            assert(acc@.contains(r));
            return;
        }
        i += 1;
    }
    assert(!acc@.contains(r));
    acc.push(r);
}

/// Collect the rates of the list `v[start..end]` into `acc`.
fn collect_rates_at(v: &Vec<char>, start: usize, end: usize, acc: &mut Vec<u32>)
    requires
        start <= end <= v@.len(),
    ensures
        final(acc)@ == collect_rates(v@.subrange(start as int, end as int), 0, old(acc)@),
{
    let ghost rs = v@.subrange(start as int, end as int);
    let mut pos: usize = start;
    loop
        invariant
            start <= pos <= end,
            end <= v@.len(),
            rs == v@.subrange(start as int, end as int),
            collect_rates(rs, 0, old(acc)@) == collect_rates(rs, pos - start, acc@),
        ensures
            acc@ == collect_rates(rs, 0, old(acc)@),
        decreases end - pos,
    {
        let e = piece_end_at(v, pos, end, ',');
        proof {
            lemma_piece_end_shift(v@.subrange(0, end as int), ',', start as int, pos - start);
            assert(v@.subrange(0, end as int).subrange(start as int, end as int) =~= rs);
            assert(rs.subrange(pos - start, e - start) =~= v@.subrange(pos as int, e as int));
        }
        let (a, b) = trim_bounds(v, pos, e);
        match parse_u32_in(v, a, b) {
            Some(r) => push_new(acc, r),
            None => {},
        }
        if e < end {
            pos = e + 1;
        } else {
            return;
        }
    }
}

/// `piece_end` on `t[j..]` from `m` is `piece_end` on `t` from `j + m`,
/// shifted by `j`.
pub proof fn lemma_piece_end_shift(t: Seq<char>, c: char, j: int, m: int)
    requires
        0 <= j <= t.len(),
        0 <= m,
    ensures
        piece_end(t.subrange(j, t.len() as int), c, m) == piece_end(t, c, j + m) - j,
{
    crate::text::lemma_find_char_general(t, c, j, m);
}

/// Insert `r`, absent from the strictly increasing `v`, in its place.
fn insert_sorted(v: &mut Vec<u32>, r: u32)
    requires
        strictly_sorted(old(v)@),
        !old(v)@.contains(r),
    ensures
        strictly_sorted(final(v)@),
        forall|x: u32| final(v)@.contains(x) <==> (old(v)@.contains(x) || x == r),
{
    let mut i: usize = 0;
    while i < v.len() && v[i] < r
        invariant
            0 <= i <= v@.len(),
            forall|k: int| 0 <= k < i ==> v@[k] < r,
        decreases v@.len() - i,
    {
        i += 1;
    }
    let ghost before = v@;
    v.insert(i, r);
    proof {
        assert(v@ =~= before.subrange(0, i as int).push(r) + before.subrange(i as int, before.len() as int));
        assert forall|x: u32| v@.contains(x) <==> (before.contains(x) || x == r) by {
            if v@.contains(x) {
                let k = choose|k: int| 0 <= k < v@.len() && v@[k] == x;
                if k < i {
                    assert(before[k] == x);
                } else if k > i {
                    assert(before[k - 1] == x);
                }
            }
            if before.contains(x) {
                let k = choose|k: int| 0 <= k < before.len() && before[k] == x;
                if k < i {
                    assert(v@[k] == x);
                } else {
                    assert(v@[k + 1] == x);
                }
            }
            if x == r {
                assert(v@[i as int] == r);
            }
        }
        assert forall|a: int, b: int| 0 <= a < b < v@.len() implies v@[a] < v@[b] by {
            if i < before.len() {
                assert(before[i as int] != r);
                assert(before[i as int] >= r);
            }
        }
    }
}

/// The distinct values of `acc` in increasing order.
fn sorted_distinct(acc: &Vec<u32>) -> (r: Vec<u32>)
    requires
        forall|i: int, j: int| 0 <= i < j < acc@.len() ==> acc@[i] != acc@[j],
    ensures
        sorted_values_of(r@, acc@),
{
    let mut out: Vec<u32> = Vec::new();
    let mut i: usize = 0;
    while i < acc.len()
        invariant
            0 <= i <= acc@.len(),
            forall|a: int, b: int| 0 <= a < b < acc@.len() ==> acc@[a] != acc@[b],
            strictly_sorted(out@),
            forall|x: u32| out@.contains(x) <==> acc@.subrange(0, i as int).contains(x),
        decreases acc@.len() - i,
    {
        let r = acc[i];
        proof {
            let sub0 = acc@.subrange(0, i as int);
            if out@.contains(r) {
                let k = choose|k: int| 0 <= k < sub0.len() && #[trigger] sub0[k] == r;
                assert(acc@[k] == r);
            }
        }
        insert_sorted(&mut out, r);
        proof {
            assert forall|x: u32| out@.contains(x) <==> acc@.subrange(0, i + 1).contains(x) by {
                let sub1 = acc@.subrange(0, i + 1);
                let sub0 = acc@.subrange(0, i as int);
                if sub1.contains(x) {
                    let k = choose|k: int| 0 <= k < sub1.len() && #[trigger] sub1[k] == x;
                    if k < i {
                        assert(sub0[k] == x);
                    }
                }
                if sub0.contains(x) {
                    let k = choose|k: int| 0 <= k < sub0.len() && #[trigger] sub0[k] == x;
                    assert(sub1[k] == x);
                }
                if x == r {
                    assert(acc@.subrange(0, i + 1)[i as int] == r);
                }
            }
        }
        i += 1;
    }
    assert(acc@.subrange(0, acc@.len() as int) =~= acc@);
    out
}

/// Every value is added at most once.
proof fn lemma_add_new_distinct(acc: Seq<u32>, r: u32)
    requires
        forall|i: int, j: int| 0 <= i < j < acc.len() ==> acc[i] != acc[j],
    ensures
        forall|i: int, j: int| 0 <= i < j < add_new(acc, r).len() ==> add_new(acc, r)[i] != add_new(acc, r)[j],
{
}

/// The rates collected from a list are distinct when those collected before
/// were.
proof fn lemma_collect_rates_distinct(rs: Seq<char>, pos: int, acc: Seq<u32>)
    requires
        forall|i: int, j: int| 0 <= i < j < acc.len() ==> acc[i] != acc[j],
    ensures
        forall|i: int, j: int| 0 <= i < j < collect_rates(rs, pos, acc).len()
            ==> collect_rates(rs, pos, acc)[i] != collect_rates(rs, pos, acc)[j],
    decreases rs.len() + 1 - pos,
{
    if 0 <= pos <= rs.len() {
        lemma_piece_end_bounds(rs, ',', pos);
        let e = piece_end(rs, ',', pos);
        let acc2 = match parse_u32(trim(rs.subrange(pos, e))) {
            Some(r) => add_new(acc, r),
            None => acc,
        };
        if let Some(r) = parse_u32(trim(rs.subrange(pos, e))) {
            lemma_add_new_distinct(acc, r);
        }
        assert(collect_rates(rs, pos, acc) == (if e < rs.len() { collect_rates(rs, e + 1, acc2) } else { acc2 }));
        if e < rs.len() {
            lemma_collect_rates_distinct(rs, e + 1, acc2);
        }
    }
}

/// The scan of a `stream0` text keeps the collected rates distinct.
proof fn lemma_scan_distinct(s: Seq<char>, pos: int, pb: bool, acc: Seq<u32>)
    requires
        forall|i: int, j: int| 0 <= i < j < acc.len() ==> acc[i] != acc[j],
    ensures
        scan_stream0(s, pos, pb, acc) matches Some(out) ==> forall|i: int, j: int|
            0 <= i < j < out.len() ==> out[i] != out[j],
    decreases s.len() + 1 - pos,
{
    if 0 <= pos <= s.len() {
        let e = piece_end(s, '\n', pos);
        lemma_piece_end_bounds(s, '\n', pos);
        let t = trim(s.subrange(pos, e));
        let npb = if t == "Playback:"@ { true } else if t == "Capture:"@ { false } else { pb };
        if npb && has_prefix(t, "Rates:"@) {
            let rs = trim(strip_all_prefix(t, "Rates:"@));
            lemma_collect_rates_distinct(rs, 0, acc);
            if e < s.len() {
                lemma_scan_distinct(s, e + 1, npb, collect_rates(rs, 0, acc));
            }
        } else if e < s.len() {
            lemma_scan_distinct(s, e + 1, npb, acc);
        }
    }
}

/// `piece_end` lies between the start and the end of the text.
pub proof fn lemma_piece_end_bounds(s: Seq<char>, c: char, pos: int)
    requires
        0 <= pos <= s.len(),
    ensures
        pos <= piece_end(s, c, pos) <= s.len(),
{
    crate::text::lemma_find_char_from_bounds(s, c, pos);
}

/// Parse the playback sample rates out of the text of a card's `stream0`
/// file: the comma-separated lists on the `Rates:` lines of its `Playback:`
/// sections, deduplicated and sorted. `None` when a rate range is
/// continuous (any rate goes) or no rate is listed.
pub fn parse_stream0_rates(content: &str) -> (r: Option<Vec<u32>>)
    ensures
        match r {
            Some(v) => stream0_rates(content@) matches Some(acc) && sorted_values_of(v@, acc),
            None => stream0_rates(content@) is None,
        },
{
    let v = to_chars(content);
    let n = v.len();
    let ghost s = v@;
    assert(v@.subrange(0, n as int) =~= v@);
    let mut acc: Vec<u32> = Vec::new();
    let mut in_playback = false;
    let mut pos: usize = 0;
    let ghost mut result: Option<Seq<u32>> = None;
    proof { reveal_strlit("Rates:"); reveal_strlit("continuous"); }
    loop
        invariant_except_break
            scan_stream0(s, 0, false, Seq::empty()) == scan_stream0(s, pos as int, in_playback, acc@),
        invariant
            n == v@.len(),
            s == v@,
            s == content@,
            v@.subrange(0, n as int) == s,
            0 <= pos <= n,
            forall|i: int, j: int| 0 <= i < j < acc@.len() ==> acc@[i] != acc@[j],
        ensures
            result == scan_stream0(s, 0, false, Seq::empty()),
            result == Some(acc@),
        decreases n - pos,
    {
        proof { reveal_strlit("Rates:"); reveal_strlit("continuous"); }
        let e = piece_end_at(&v, pos, n, '\n');
        let (a, b) = trim_bounds(&v, pos, e);
        let ghost t = v@.subrange(a as int, b as int);
        let ghost pb0 = in_playback;
        let ghost acc0 = acc@;
        assert(t == trim(s.subrange(pos as int, e as int)));
        if text_eq_at(&v, a, b, "Playback:") {
            in_playback = true;
        } else if text_eq_at(&v, a, b, "Capture:") {
            in_playback = false;
        }
        if in_playback && has_prefix_at(&v, a, b, "Rates:") {
            let c = strip_all_prefix_at(&v, a, b, "Rates:");
            let (c2, d2) = trim_bounds(&v, c, b);
            if contains_at(&v, c2, d2, "continuous") {
                proof {
                    assert(e == piece_end(s, '\n', pos as int));
                    assert(v@.subrange(c2 as int, d2 as int) == trim(strip_all_prefix(t, "Rates:"@)));
                    assert(scan_stream0(s, pos as int, pb0, acc0) is None);
                    result = None;
                }
                return None;
            }
            collect_rates_at(&v, c2, d2, &mut acc);
            proof { lemma_collect_rates_distinct(v@.subrange(c2 as int, d2 as int), 0, acc0); }
        }
        if e < n {
            pos = e + 1;
        } else {
            proof { result = Some(acc@); }
            break;
        }
    }
    if acc.len() == 0 {
        None
    } else {
        Some(sorted_distinct(&acc))
    }
}

/// The playback rates of the card named `name` (the first so named): those
/// of its `stream0` text, `None` when it has none or the rates are unknown.
pub open spec fn hw_rates(cards: Seq<ProcCardInfo>, name: Seq<char>) -> Option<Seq<u32>> {
    match card_named(cards, name, 0) {
        Some(i) => match cards[i].stream0 {
            Some(t) => stream0_rates(t@),
            None => None,
        },
        None => None,
    }
}

/// The hardware playback rates of the card named `card_name`, sorted, read
/// from its `stream0` text; `None` when they cannot be determined.
pub fn get_hw_supported_rates(card_name: &str, cards: &Vec<ProcCardInfo>) -> (r: Option<Vec<u32>>)
    ensures
        match r {
            Some(v) => hw_rates(cards@, card_name@) matches Some(acc) && sorted_values_of(v@, acc),
            None => hw_rates(cards@, card_name@) is None,
        },
{
    match find_card(cards, card_name, true) {
        Some(i) => match &cards[i].stream0 {
            Some(t) => parse_stream0_rates(t.as_str()),
            None => None,
        },
        None => None,
    }
}

/// The hardware playback rates of the card a device id refers to, sorted;
/// `None` when they cannot be determined.
pub fn get_device_supported_rates(device_id: &str, cards: &Vec<ProcCardInfo>) -> (r: Option<Vec<u32>>)
    ensures
        match r {
            Some(v) => card_name_of(device_id@, cards@) matches Some(name)
                && hw_rates(cards@, name) matches Some(acc) && sorted_values_of(v@, acc),
            None => match card_name_of(device_id@, cards@) {
                Some(name) => hw_rates(cards@, name) is None,
                None => true,
            },
        },
{
    match extract_card_name_from_device(device_id, cards) {
        Some(card_name) => get_hw_supported_rates(card_name.as_str(), cards),
        None => None,
    }
}

/// Whether the hardware of a device supports `sample_rate`: `Some(true)` or
/// `Some(false)` when its rates are known, `None` when they are not.
pub fn device_supports_sample_rate(device_id: &str, sample_rate: u32, cards: &Vec<ProcCardInfo>) -> (r: Option<bool>)
    ensures
        match r {
            Some(b) => card_name_of(device_id@, cards@) matches Some(name)
                && hw_rates(cards@, name) matches Some(acc) && b == acc.contains(sample_rate),
            None => match card_name_of(device_id@, cards@) {
                Some(name) => hw_rates(cards@, name) is None,
                None => true,
            },
        },
{
    match get_device_supported_rates(device_id, cards) {
        Some(rates) => Some(contains_u32(&rates, sample_rate)),
        None => None,
    }
}

/// Whether `x` is one of the values of `v`.
pub fn contains_u32(v: &Vec<u32>, x: u32) -> (r: bool)
    ensures
        r == v@.contains(x),
{
    let mut i: usize = 0;
    while i < v.len()
        invariant
            0 <= i <= v@.len(),
            forall|k: int| 0 <= k < i ==> v@[k] != x,
        decreases v@.len() - i,
    {
        if v[i] == x {
            assert(v@.contains(x));
            return true;
        }
        i += 1;
    }
    false
}

/// Whether `rate` is in the rate family of `requested`: multiples of 44100
/// when `requested` is one, multiples of 48000 otherwise.
pub open spec fn same_family(requested: u32, rate: u32) -> bool {
    if requested % 44100 == 0 { rate % 44100 == 0 } else { rate % 48000 == 0 }
}

/// A fallback candidate: in the family of `requested` and not above it.
pub open spec fn fallback_candidate(requested: u32, rate: u32) -> bool {
    same_family(requested, rate) && rate <= requested
}

/// What `find_best_fallback_rate` returns: the highest candidate; without
/// one, the highest supported rate; with no supported rate, 48000.
pub open spec fn best_fallback(requested: u32, supported: Seq<u32>, r: u32) -> bool {
    if exists|i: int| 0 <= i < supported.len() && fallback_candidate(requested, #[trigger] supported[i]) {
        &&& exists|i: int| 0 <= i < supported.len() && fallback_candidate(requested, #[trigger] supported[i])
            && supported[i] == r
        &&& forall|i: int| 0 <= i < supported.len() && fallback_candidate(requested, #[trigger] supported[i])
            ==> supported[i] <= r
    } else if supported.len() > 0 {
        &&& supported.contains(r)
        &&& forall|i: int| 0 <= i < supported.len() ==> #[trigger] supported[i] <= r
    } else {
        r == 48000
    }
}

/// The best sample rate to fall back to when `requested` is not supported:
/// the highest supported rate of the same family (44.1 kHz or 48 kHz
/// multiples) not above `requested`; failing that the highest supported
/// rate; with no supported rate, 48000.
pub fn find_best_fallback_rate(requested: u32, supported: &[u32]) -> (r: u32)
    ensures
        best_fallback(requested, supported@, r),
{
    let is_441 = requested % 44100 == 0;
    let mut best: Option<u32> = None;
    let mut highest: Option<u32> = None;
    let mut i: usize = 0;
    while i < supported.len()
        invariant
            0 <= i <= supported@.len(),
            is_441 == (requested % 44100 == 0),
            match best {
                Some(b) => (exists|k: int| 0 <= k < i && fallback_candidate(requested, #[trigger] supported@[k])
                    && supported@[k] == b)
                    && forall|k: int| 0 <= k < i && fallback_candidate(requested, #[trigger] supported@[k])
                    ==> supported@[k] <= b,
                None => forall|k: int| 0 <= k < i ==> !fallback_candidate(requested, #[trigger] supported@[k]),
            },
            match highest {
                Some(h) => (exists|k: int| 0 <= k < i && #[trigger] supported@[k] == h)
                    && forall|k: int| 0 <= k < i ==> #[trigger] supported@[k] <= h,
                None => i == 0,
            },
        decreases supported@.len() - i,
    {
        let rate = supported[i];
        let in_family = if is_441 { rate % 44100 == 0 } else { rate % 48000 == 0 };
        if in_family && rate <= requested {
            match best {
                Some(b) => if rate > b {
                    best = Some(rate);
                },
                None => {
                    best = Some(rate);
                },
            }
        }
        match highest {
            Some(h) => if rate > h {
                highest = Some(rate);
            },
            None => {
                highest = Some(rate);
            },
        }
        i += 1;
    }
    match best {
        Some(b) => b,
        None => match highest {
            Some(h) => h,
            None => 48000,
        },
    }
}

/// One line of `/proc/asound/cards`, such as
/// ` 0 [C20            ]: USB-Audio - Cambridge Audio USB Audio 2.0`, read as
/// (card number, short name, long name); `None` for other lines.
pub open spec fn proc_card_line(line: Seq<char>) -> Option<(Seq<char>, Seq<char>, Seq<char>)> {
    let l = trim(line);
    match find_char_from(l, '[', 0) {
        None => None,
        Some(k) => {
            let num = trim(l.subrange(0, k));
            let rest = l.subrange(k + 1, l.len() as int);
            if !all_digits(num) {
                None
            } else {
                match find_char_from(rest, ']', 0) {
                    None => None,
                    Some(be) => {
                        let short = trim(rest.subrange(0, be));
                        let long = match find_from(rest, " - "@, 0) {
                            Some(d) => trim(rest.subrange(d + 3, rest.len() as int)),
                            None => trim(trim_start_char(trim(rest.subrange(be + 1, rest.len() as int)), ':')),
                        };
                        Some((num, short, long))
                    },
                }
            }
        },
    }
}

/// The start of `v[start..end]` after every leading `c`.
fn skip_char_at(v: &Vec<char>, start: usize, end: usize, c: char) -> (r: usize)
    requires
        start <= end <= v@.len(),
    ensures
        start <= r <= end,
        v@.subrange(r as int, end as int) == trim_start_char(v@.subrange(start as int, end as int), c),
{
    let mut i: usize = start;
    while i < end && v[i] == c
        invariant
            start <= i <= end,
            end <= v@.len(),
            trim_start_char(v@.subrange(start as int, end as int), c)
                == trim_start_char(v@.subrange(i as int, end as int), c),
        decreases end - i,
    {
        assert(v@.subrange(i as int, end as int).drop_first() =~= v@.subrange(i + 1, end as int));
        i += 1;
    }
    proof {
        if i < end {
            assert(v@.subrange(i as int, end as int)[0] == v@[i as int]);
        }
    }
    i
}

/// The card line `v[start..end]` parsed as `proc_card_line` does; the text
/// `s` is the one whose characters `v` holds.
fn parse_card_line_at(s: &str, v: &Vec<char>, start: usize, end: usize) -> (r: Option<(String, String, String)>)
    requires
        v@ == s@,
        start <= end <= v@.len(),
    ensures
        match r {
            Some((a, b, c)) => proc_card_line(v@.subrange(start as int, end as int)) == Some((a@, b@, c@)),
            None => proc_card_line(v@.subrange(start as int, end as int)) is None,
        },
{
    let (lo, hi) = trim_bounds(v, start, end);
    let ghost l = v@.subrange(lo as int, hi as int);
    let (k, open) = split_at_char(v, lo, hi, '[');
    if open.is_none() {
        return None;
    }
    proof {
        crate::text::lemma_find_char_from_bounds(l, '[', 0);
    }
    let (n0, n1) = trim_bounds(v, lo, k);
    assert(v@.subrange(lo as int, k as int) =~= l.subrange(0, k - lo));
    let ghost rest = v@.subrange(k + 1, hi as int);
    assert(rest =~= l.subrange(k - lo + 1, l.len() as int));
    if !all_digits_in(v, n0, n1) {
        return None;
    }
    let (be, close) = split_at_char(v, k + 1, hi, ']');
    if close.is_none() {
        return None;
    }
    let (s0, s1) = trim_bounds(v, k + 1, be);
    proof {
        reveal_strlit(" - ");
    }
    let dash = find_text(v, k + 1, hi, " - ");
    proof {
        lemma_find_from_general(v@.subrange(0, hi as int), " - "@, k + 1, 0);
        assert(v@.subrange(0, hi as int).subrange(k + 1, hi as int) =~= rest);
    }
    let long = match dash {
        Some(d) => {
            proof {
                lemma_find_from_bounds(v@.subrange(0, hi as int), " - "@, k + 1);
            }
            let (l0, l1) = trim_bounds(v, d + 3, hi);
            assert(v@.subrange(d + 3, hi as int) =~= rest.subrange(d + 3 - (k + 1), rest.len() as int));
            substring(s, l0, l1)
        },
        None => {
            let (t0, t1) = trim_bounds(v, be + 1, hi);
            assert(v@.subrange(be + 1, hi as int) =~= rest.subrange(be + 1 - (k + 1), rest.len() as int));
            let u0 = skip_char_at(v, t0, t1, ':');
            let (w0, w1) = trim_bounds(v, u0, t1);
            substring(s, w0, w1)
        },
    };
    assert(v@.subrange(k + 1, be as int) =~= rest.subrange(0, be - (k + 1)));
    Some((substring(s, n0, n1), substring(s, s0, s1), long))
}

/// Parse one line of `/proc/asound/cards` into (card number, short name,
/// long name); `None` for lines that do not start a card entry.
pub fn parse_proc_card_line(line: &str) -> (r: Option<(String, String, String)>)
    ensures
        match r {
            Some((a, b, c)) => proc_card_line(line@) == Some((a@, b@, c@)),
            None => proc_card_line(line@) is None,
        },
{
    let v = to_chars(line);
    let n = v.len();
    assert(v@.subrange(0, n as int) =~= line@);
    parse_card_line_at(line, &v, 0, n)
}

/// The card entries of a `/proc/asound/cards` text, line by line from `pos`.
pub open spec fn proc_cards(s: Seq<char>, pos: int) -> Seq<(Seq<char>, Seq<char>, Seq<char>)>
    decreases s.len() + 1 - pos,
{
    if pos < 0 || pos > s.len() {
        Seq::empty()
    } else {
        proof {
            lemma_piece_end_bounds(s, '\n', pos);
        }
        let e = piece_end(s, '\n', pos);
        let here = match proc_card_line(s.subrange(pos, e)) {
            Some(c) => seq![c],
            None => Seq::empty(),
        };
        if e < s.len() {
            here + proc_cards(s, e + 1)
        } else {
            here
        }
    }
}

/// The view of a parsed card entry.
pub open spec fn card_entry_view(c: (String, String, String)) -> (Seq<char>, Seq<char>, Seq<char>) {
    (c.0@, c.1@, c.2@)
}

/// Every card entry of a `/proc/asound/cards` text, in order: (card number,
/// short name, long name) for each line that starts one.
pub fn parse_proc_cards(content: &str) -> (r: Vec<(String, String, String)>)
    ensures
        r@.map_values(|c: (String, String, String)| card_entry_view(c)) == proc_cards(content@, 0),
{
    let v = to_chars(content);
    let n = v.len();
    let mut out: Vec<(String, String, String)> = Vec::new();
    let mut pos: usize = 0;
    loop
        invariant
            n == v@.len(),
            v@ == content@,
            v@.subrange(0, n as int) == v@,
            0 <= pos <= n,
            out@.map_values(|c: (String, String, String)| card_entry_view(c)) + proc_cards(v@, pos as int)
                == proc_cards(v@, 0),
        decreases n - pos,
    {
        let e = piece_end_at(&v, pos, n, '\n');
        let ghost before = out@;
        match parse_card_line_at(content, &v, pos, e) {
            Some(c) => {
                out.push(c);
            },
            None => {},
        }
        proof {
            let here = match proc_card_line(v@.subrange(pos as int, e as int)) {
                Some(c) => seq![c],
                None => Seq::<(Seq<char>, Seq<char>, Seq<char>)>::empty(),
            };
            assert(out@.map_values(|c: (String, String, String)| card_entry_view(c))
                =~= before.map_values(|c: (String, String, String)| card_entry_view(c)) + here);
        }
        if e < n {
            assert(proc_cards(v@, pos as int) =~= (match proc_card_line(v@.subrange(pos as int, e as int)) {
                Some(c) => seq![c],
                None => Seq::<(Seq<char>, Seq<char>, Seq<char>)>::empty(),
            }) + proc_cards(v@, e + 1));
            pos = e + 1;
        } else {
            assert(proc_cards(v@, pos as int) =~= (match proc_card_line(v@.subrange(pos as int, e as int)) {
                Some(c) => seq![c],
                None => Seq::<(Seq<char>, Seq<char>, Seq<char>)>::empty(),
            }));
            assert(out@.map_values(|c: (String, String, String)| card_entry_view(c)) =~= proc_cards(v@, 0));
            return out;
        }
    }
}

/// Whether a directory entry of a card names a PCM playback device
/// (`pcm<N>p`): it starts with `pcm` and ends with `p`.
pub fn is_playback_pcm_entry(name: &str) -> (r: bool)
    ensures
        r == (has_prefix(name@, "pcm"@) && name@.len() > 0 && name@.last() == 'p'),
{
    let v = to_chars(name);
    let n = v.len();
    assert(v@.subrange(0, n as int) =~= v@);
    has_prefix_at(&v, 0, n, "pcm") && n > 0 && v[n - 1] == 'p'
}

/// The `name:` and `device:` values of a PCM `info` text, from the line at
/// `pos` on; a later line replaces an earlier value.
pub open spec fn pcm_scan(s: Seq<char>, pos: int, name: Seq<char>, dev: Seq<char>) -> (Seq<char>, Seq<char>)
    decreases s.len() + 1 - pos,
{
    if pos < 0 || pos > s.len() {
        (name, dev)
    } else {
        proof {
            lemma_piece_end_bounds(s, '\n', pos);
        }
        let e = piece_end(s, '\n', pos);
        let line = s.subrange(pos, e);
        let name2 = if has_prefix(line, "name: "@) { trim(line.subrange(6, line.len() as int)) } else { name };
        let dev2 = if has_prefix(line, "device: "@) { trim(line.subrange(8, line.len() as int)) } else { dev };
        if e < s.len() {
            pcm_scan(s, e + 1, name2, dev2)
        } else {
            (name2, dev2)
        }
    }
}

/// A PCM `info` text read as (device number, name): `None` without a device
/// number; the name is "Unknown" when none is given.
pub open spec fn pcm_info_of(s: Seq<char>) -> Option<(Seq<char>, Seq<char>)> {
    let (name, dev) = pcm_scan(s, 0, Seq::empty(), Seq::empty());
    if dev.len() == 0 {
        None
    } else {
        Some((dev, if name.len() == 0 { "Unknown"@ } else { name }))
    }
}

/// The playback device that a PCM `info` text describes: its `device:`
/// number and `name:`; `None` when the text gives no device number.
pub fn parse_pcm_info(content: &str) -> (r: Option<ProcPcmInfo>)
    ensures
        match r {
            Some(d) => pcm_info_of(content@) == Some((d.device_num@, d.name@)),
            None => pcm_info_of(content@) is None,
        },
{
    let v = to_chars(content);
    let n = v.len();
    let mut name: Option<(usize, usize)> = None;
    let mut dev: Option<(usize, usize)> = None;
    let mut pos: usize = 0;
    proof {
        reveal_strlit("name: ");
        reveal_strlit("device: ");
    }
    loop
        invariant_except_break
            pcm_scan(v@, 0, Seq::empty(), Seq::empty()) == pcm_scan(v@, pos as int,
                match name { Some((a, b)) => v@.subrange(a as int, b as int), None => Seq::empty() },
                match dev { Some((a, b)) => v@.subrange(a as int, b as int), None => Seq::empty() }),
        invariant
            n == v@.len(),
            v@ == content@,
            v@.subrange(0, n as int) == v@,
            0 <= pos <= n,
            "name: "@.len() == 6,
            "device: "@.len() == 8,
            name matches Some((a, b)) ==> a <= b <= n,
            dev matches Some((a, b)) ==> a <= b <= n,
        ensures
            pcm_scan(v@, 0, Seq::empty(), Seq::empty()) == (
                match name { Some((a, b)) => v@.subrange(a as int, b as int), None => Seq::empty() },
                match dev { Some((a, b)) => v@.subrange(a as int, b as int), None => Seq::empty() }),
        decreases n - pos,
    {
        let e = piece_end_at(&v, pos, n, '\n');
        let ghost line = v@.subrange(pos as int, e as int);
        if has_prefix_at(&v, pos, e, "name: ") {
            name = Some(trim_bounds(&v, pos + 6, e));
            assert(v@.subrange(pos + 6, e as int) =~= line.subrange(6, line.len() as int));
        }
        if has_prefix_at(&v, pos, e, "device: ") {
            dev = Some(trim_bounds(&v, pos + 8, e));
            assert(v@.subrange(pos + 8, e as int) =~= line.subrange(8, line.len() as int));
        }
        if e < n {
            pos = e + 1;
        } else {
            break;
        }
    }
    match dev {
        None => None,
        Some((d0, d1)) => {
            if d0 == d1 {
                return None;
            }
            let name_text = match name {
                Some((a, b)) => if a < b {
                    substring(content, a, b)
                } else {
                    String::from_str("Unknown")
                },
                None => String::from_str("Unknown"),
            };
            Some(ProcPcmInfo { device_num: substring(content, d0, d1), name: name_text })
        },
    }
}

/// The number by which PCM devices are ordered: the device number, or 0
/// when it does not parse.
pub open spec fn pcm_key(d: ProcPcmInfo) -> u32 {
    match parse_u32(d.device_num@) {
        Some(k) => k,
        None => 0,
    }
}

/// `sorted` with `x` inserted after every entry whose key is not above
/// that of `x` at its end.
pub open spec fn insert_stable(sorted: Seq<ProcPcmInfo>, x: ProcPcmInfo) -> Seq<ProcPcmInfo>
    decreases sorted.len(),
{
    if sorted.len() == 0 {
        seq![x]
    } else if pcm_key(sorted.last()) <= pcm_key(x) {
        sorted.push(x)
    } else {
        insert_stable(sorted.drop_last(), x).push(sorted.last())
    }
}

/// `s` stably sorted by `pcm_key` (what `sort_by` on the key gives).
pub open spec fn stable_sort_pcm(s: Seq<ProcPcmInfo>) -> Seq<ProcPcmInfo>
    decreases s.len(),
{
    if s.len() == 0 {
        s
    } else {
        insert_stable(stable_sort_pcm(s.drop_last()), s.last())
    }
}

/// The key of a PCM device.
fn pcm_key_of(d: &ProcPcmInfo) -> (r: u32)
    ensures
        r == pcm_key(*d),
{
    let v = to_chars(d.device_num.as_str());
    let n = v.len();
    assert(v@.subrange(0, n as int) =~= d.device_num@);
    match parse_u32_in(&v, 0, n) {
        Some(k) => k,
        None => 0,
    }
}

/// Inserting from the end at `p` is `insert_stable` when every entry from
/// `p` on has a greater key and the one before `p` (if any) does not.
proof fn lemma_insert_stable_at(sorted: Seq<ProcPcmInfo>, x: ProcPcmInfo, p: int)
    requires
        0 <= p <= sorted.len(),
        forall|j: int| p <= j < sorted.len() ==> pcm_key(#[trigger] sorted[j]) > pcm_key(x),
        p > 0 ==> pcm_key(sorted[p - 1]) <= pcm_key(x),
    ensures
        insert_stable(sorted, x) == sorted.subrange(0, p).push(x) + sorted.subrange(p, sorted.len() as int),
    decreases sorted.len(),
{
    if sorted.len() == 0 {
        assert(sorted.subrange(0, p).push(x) + sorted.subrange(p, sorted.len() as int) =~= seq![x]);
    } else if p == sorted.len() {
        assert(sorted.subrange(0, p).push(x) + sorted.subrange(p, sorted.len() as int) =~= sorted.push(x));
    } else {
        let d = sorted.drop_last();
        assert(pcm_key(sorted[sorted.len() - 1]) > pcm_key(x));
        assert forall|j: int| p <= j < d.len() implies pcm_key(#[trigger] d[j]) > pcm_key(x) by {
            assert(d[j] == sorted[j]);
        }
        lemma_insert_stable_at(d, x, p);
        assert(d.subrange(0, p).push(x) + d.subrange(p, d.len() as int) + seq![sorted.last()]
            =~= sorted.subrange(0, p).push(x) + sorted.subrange(p, sorted.len() as int));
    }
}

/// Sort PCM devices by device number (unparseable numbers count as 0),
/// keeping the order of devices with equal numbers.
pub fn sort_pcm_devices(devices: Vec<ProcPcmInfo>) -> (r: Vec<ProcPcmInfo>)
    ensures
        r@ == stable_sort_pcm(devices@),
{
    let mut rest = devices;
    let ghost all = rest@;
    assert(all.len() == rest.len());
    let mut out: Vec<ProcPcmInfo> = Vec::new();
    let mut i: usize = 0;
    while rest.len() > 0
        invariant
            all.len() <= usize::MAX,
            i + rest@.len() == all.len(),
            rest@ == all.subrange(i as int, all.len() as int),
            out@ == stable_sort_pcm(all.subrange(0, i as int)),
        decreases rest@.len(),
    {
        let d = rest.remove(0);
        let key = pcm_key_of(&d);
        let mut p: usize = out.len();
        while p > 0 && pcm_key_of(&out[p - 1]) > key
            invariant
                0 <= p <= out@.len(),
                forall|j: int| p <= j < out@.len() ==> pcm_key(#[trigger] out@[j]) > key,
            decreases p,
        {
            p -= 1;
        }
        proof {
            lemma_insert_stable_at(out@, d, p as int);
            assert(all.subrange(0, i + 1).drop_last() =~= all.subrange(0, i as int));
            assert(all.subrange(0, i + 1).last() == d);
        }
        out.insert(p, d);
        assert(out@ =~= stable_sort_pcm(all.subrange(0, i + 1)));
        i += 1;
        assert(rest@ =~= all.subrange(i as int, all.len() as int));
    }
    assert(all.subrange(0, i as int) =~= all);
    out
}

/// Whether `s` holds no `c`.
pub open spec fn free_of(s: Seq<char>, c: char) -> bool {
    forall|i: int| 0 <= i < s.len() ==> s[i] != c
}

/// In `a`, then `c`, then `b`, with no `c` in `a`, the first `c` follows `a`.
proof fn lemma_split_at_first(a: Seq<char>, c: char, b: Seq<char>)
    requires
        free_of(a, c),
    ensures
        before_char(a + seq![c] + b, c) == a,
        after_char(a + seq![c] + b, c) == Some(b),
{
    let s = a + seq![c] + b;
    crate::text::lemma_find_char_from_bounds(s, c, 0);
    assert(s[a.len() as int] == c);
    match find_char_from(s, c, 0) {
        Some(k) => {
            if k < a.len() {
                assert(s[k] == a[k]);
            }
        },
        None => {},
    }
    assert(s.subrange(0, a.len() as int) =~= a);
    assert(s.subrange(a.len() as int + 1, s.len() as int) =~= b);
}

/// Text without `c` has no first `c`: all of it comes before one.
proof fn lemma_no_char(a: Seq<char>, c: char)
    requires
        free_of(a, c),
    ensures
        before_char(a, c) == a,
        after_char(a, c) is None,
{
    crate::text::lemma_find_char_from_bounds(a, c, 0);
    match find_char_from(a, c, 0) {
        Some(k) => {
            assert(a[k] == c);
        },
        None => {},
    }
}

/// A stable id resolves back to the `hw:N,M` id it was made from, when the
/// card numbered `N` is found again under its short name (`N`, `M` and the
/// short name without commas).
pub proof fn lemma_stable_id_resolves_back(n: Seq<char>, m: Seq<char>, cards: Seq<ProcCardInfo>, i: int)
    requires
        free_of(n, ','),
        free_of(m, ','),
        last_card_numbered(cards, n, cards.len() as int) == Some(i),
        0 <= i < cards.len(),
        free_of(cards[i].short_name@, ','),
        card_number_by_name(cards, cards[i].short_name@) == Some(n),
    ensures
        stable_id("hw:"@ + n + ","@ + m, cards) == "front:CARD="@ + cards[i].short_name@ + ",DEV="@ + m,
        current_hw_id(stable_id("hw:"@ + n + ","@ + m, cards), cards) == Some("hw:"@ + n + ","@ + m),
{
    reveal_strlit("hw:");
    reveal_strlit(",");
    reveal_strlit("front:CARD=");
    reveal_strlit("plughw:");
    reveal_strlit(",DEV=");
    reveal_strlit("DEV=");
    let sname = cards[i].short_name@;
    let s = "hw:"@ + n + ","@ + m;
    assert(s.subrange(0, 3) =~= "hw:"@);
    assert(!has_prefix(s, "front:CARD="@)) by {
        if has_prefix(s, "front:CARD="@) {
            assert(s.subrange(0, 11)[0] == s[0]);
        }
    }
    assert(!has_prefix(s, "plughw:"@)) by {
        if has_prefix(s, "plughw:"@) {
            assert(s.subrange(0, 7)[0] == s[0]);
        }
    }
    let stripped = s.subrange(3, s.len() as int);
    assert(stripped =~= n + seq![','] + m);
    lemma_split_at_first(n, ',', m);
    lemma_no_char(m, ',');
    let stable = "front:CARD="@ + sname + ",DEV="@ + m;
    assert(stable_id(s, cards) == stable);
    assert(stable.subrange(0, 11) =~= "front:CARD="@);
    let stripped2 = stable.subrange(11, stable.len() as int);
    let dev_text = "DEV="@ + m;
    assert(stripped2 =~= sname + seq![','] + dev_text);
    lemma_split_at_first(sname, ',', dev_text);
    assert(free_of(dev_text, ',')) by {
        assert forall|k: int| 0 <= k < dev_text.len() implies dev_text[k] != ',' by {
            if k >= 4 {
                assert(dev_text[k] == m[k - 4]);
            }
        }
    }
    lemma_no_char(dev_text, ',');
    assert(dev_text.subrange(0, 4) =~= "DEV="@);
    assert(dev_text.subrange(4, dev_text.len() as int) =~= m);
    assert("hw:"@ + n + ","@ + m =~= s);
}


/// Resolving leaves an id that is not a stable `front:CARD=` id as it is,
/// and finds nothing for a stable id whose card name no card carries.
pub proof fn lemma_resolve_passes_through_or_fails(s: Seq<char>, cards: Seq<ProcCardInfo>)
    ensures
        !has_prefix(s, "front:CARD="@) ==> current_hw_id(s, cards) == Some(s),
        has_prefix(s, "front:CARD="@)
            && card_number_by_name(cards, before_char(s.subrange(11, s.len() as int), ',')) is None
            ==> current_hw_id(s, cards) is None,
{
}


proof fn lemma_card_named_unique(cards: Seq<ProcCardInfo>, name: Seq<char>, i: int, k: int)
    requires
        0 <= k <= i < cards.len(),
        cards[i].short_name@ == name,
        forall|j: int| 0 <= j < cards.len() && j != i ==> cards[j].short_name@ != name,
    ensures
        card_named(cards, name, k) == Some(i),
    decreases i - k,
{
    if k < i {
        lemma_card_named_unique(cards, name, i, k + 1);
    }
}

proof fn lemma_last_card_numbered_unique(cards: Seq<ProcCardInfo>, number: Seq<char>, i: int, n: int)
    requires
        0 <= i < n <= cards.len(),
        cards[i].number@ == number,
        forall|j: int| 0 <= j < cards.len() && j != i ==> cards[j].number@ != number,
    ensures
        last_card_numbered(cards, number, n) == Some(i),
    decreases n,
{
    if n - 1 > i {
        lemma_last_card_numbered_unique(cards, number, i, n - 1);
    }
}

/// The round trip of a hardware id: `hw:N,M` made stable and resolved
/// again gives `hw:N,M` back, when one card is numbered `N`, its short name
/// belongs to no other card, and `N`, `M` and the short name hold no comma.
pub proof fn lemma_hw_id_round_trip(n: Seq<char>, m: Seq<char>, cards: Seq<ProcCardInfo>, i: int)
    requires
        0 <= i < cards.len(),
        cards[i].number@ == n,
        forall|j: int| 0 <= j < cards.len() && j != i ==> cards[j].number@ != n,
        forall|j: int| 0 <= j < cards.len() && j != i ==> cards[j].short_name@ != cards[i].short_name@,
        free_of(n, ','),
        free_of(m, ','),
        free_of(cards[i].short_name@, ','),
    ensures
        current_hw_id(stable_id("hw:"@ + n + ","@ + m, cards), cards) == Some("hw:"@ + n + ","@ + m),
{
    lemma_last_card_numbered_unique(cards, n, i, cards.len() as int);
    lemma_card_named_unique(cards, cards[i].short_name@, i, 0);
    lemma_stable_id_resolves_back(n, m, cards, i);
}

} // verus!
