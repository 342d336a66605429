//! Reading the output of the PipeWire/PulseAudio tools: the sink list of
//! `pactl list sinks`, the ALSA card behind a sink, and the graph clock rate
//! that `pw-metadata` reports.
//!
//! The tools are run by the caller, which hands their output in.

use vstd::prelude::*;
use crate::alsa_ids::{lemma_piece_end_bounds, piece_end, piece_end_at};
use crate::audio_device::{device_view, AudioDevice, DeviceSpec};
use crate::text::{
    contains_at, contains_text, find_char, find_char_from, find_from, find_text, has_prefix,
    has_prefix_at, lemma_find_char_from_bounds, lemma_find_char_shift, lemma_find_from_bounds,
    lemma_find_from_general,
    parse_u32, parse_u32_in, rfind_char, rfind_char_at, str_eq, strip_all_prefix,
    strip_all_prefix_at, substring, to_chars, trim, trim_bounds, trim_char, trim_char_bounds,
};

verus! {

/// The ALSA card number of the sink named `sink` in a `pactl list sinks`
/// text, from the line at `pos` on, given whether that sink's block is the
/// one being read: the first `alsa.card = ` property of its block (quotes
/// removed), `None` when its block ends first or it is absent.
pub open spec fn sink_card_scan(s: Seq<char>, sink: Seq<char>, pos: int, in_target: bool) -> Option<Seq<char>>
    decreases s.len() + 1 - pos,
{
    if pos < 0 || pos > s.len() {
        None
    } else {
        proof {
            lemma_piece_end_bounds(s, '\n', pos);
        }
        let e = piece_end(s, '\n', pos);
        let t = trim(s.subrange(pos, e));
        if has_prefix(t, "Sink #"@) && in_target {
            None
        } else if has_prefix(t, "Name:"@) {
            let found = trim(strip_all_prefix(t, "Name:"@)) == sink;
            if e < s.len() { sink_card_scan(s, sink, e + 1, found) } else { None }
        } else if !has_prefix(t, "Sink #"@) && in_target && has_prefix(t, "alsa.card = "@) {
            Some(trim_char(strip_all_prefix(t, "alsa.card = "@), '"'))
        } else if e < s.len() {
            sink_card_scan(s, sink, e + 1, in_target)
        } else {
            None
        }
    }
}

/// The ALSA card number of the PipeWire/PulseAudio sink `sink_name`, read
/// from the `alsa.card` property in the text of `pactl list sinks`.
pub fn get_alsa_card_for_sink(pactl_output: &str, sink_name: &str) -> (r: Option<String>)
    ensures
        match r {
            Some(c) => sink_card_scan(pactl_output@, sink_name@, 0, false) == Some(c@),
            None => sink_card_scan(pactl_output@, sink_name@, 0, false) is None,
        },
{
    let v = to_chars(pactl_output);
    let n = v.len();
    let mut pos: usize = 0;
    let mut in_target = false;
    loop
        invariant
            n == v@.len(),
            v@ == pactl_output@,
            v@.subrange(0, n as int) == v@,
            0 <= pos <= n,
            sink_card_scan(v@, sink_name@, 0, false) == sink_card_scan(v@, sink_name@, pos as int, in_target),
        decreases n - pos,
    {
        proof {
            reveal_strlit("Name:");
            reveal_strlit("Sink #");
            reveal_strlit("alsa.card = ");
        }
        let e = piece_end_at(&v, pos, n, '\n');
        let (a, b) = trim_bounds(&v, pos, e);
        let ghost t = v@.subrange(a as int, b as int);
        proof {
            if has_prefix(t, "Sink #"@) {
                assert(t[0] == "Sink #"@[0]);
                assert(!has_prefix(t, "Name:"@)) by {
                    if has_prefix(t, "Name:"@) {
                        assert(t[0] == "Name:"@[0]);
                    }
                }
            }
        }
        if has_prefix_at(&v, a, b, "Sink #") {
            if in_target {
                return None;
            }
        } else if has_prefix_at(&v, a, b, "Name:") {
            let c = strip_all_prefix_at(&v, a, b, "Name:");
            let (c0, c1) = trim_bounds(&v, c, b);
            let name = substring(pactl_output, c0, c1);
            in_target = str_eq(name.as_str(), sink_name);
        } else if in_target && has_prefix_at(&v, a, b, "alsa.card = ") {
            let c = strip_all_prefix_at(&v, a, b, "alsa.card = ");
            let (c0, c1) = trim_char_bounds(&v, c, b, '"');
            return Some(substring(pactl_output, c0, c1));
        }
        if e < n {
            pos = e + 1;
        } else {
            return None;
        }
    }
}

/// The graph clock rate in a `pw-metadata -n settings 0 clock.rate` text,
/// from the line at `pos` on: the quoted number after `value:'` on the first
/// line that mentions `clock.rate` and `value:` and has such a quoted value
/// (`None` when that value is not a `u32` or no line has one).
pub open spec fn clock_rate_scan(s: Seq<char>, pos: int) -> Option<u32>
    decreases s.len() + 1 - pos,
{
    if pos < 0 || pos > s.len() {
        None
    } else {
        proof {
            lemma_piece_end_bounds(s, '\n', pos);
        }
        let e = piece_end(s, '\n', pos);
        let line = s.subrange(pos, e);
        let quoted = if contains_text(line, "clock.rate"@) && contains_text(line, "value:"@) {
            match find_from(line, "value:'"@, 0) {
                Some(st) => {
                    let after = line.subrange(st + 7, line.len() as int);
                    match find_char_from(after, '\'', 0) {
                        Some(end) => Some(after.subrange(0, end)),
                        None => None,
                    }
                },
                None => None,
            }
        } else {
            None
        };
        match quoted {
            Some(text) => parse_u32(text),
            None => if e < s.len() {
                clock_rate_scan(s, e + 1)
            } else {
                None
            },
        }
    }
}

/// The current PipeWire graph sample rate from the output of
/// `pw-metadata -n settings 0 clock.rate`.
pub fn parse_pipewire_clock_rate(pw_output: &str) -> (r: Option<u32>)
    ensures
        r == clock_rate_scan(pw_output@, 0),
{
    let v = to_chars(pw_output);
    let n = v.len();
    let mut pos: usize = 0;
    loop
        invariant
            n == v@.len(),
            v@ == pw_output@,
            v@.subrange(0, n as int) == v@,
            0 <= pos <= n,
            clock_rate_scan(v@, 0) == clock_rate_scan(v@, pos as int),
        decreases n - pos,
    {
        proof {
            reveal_strlit("clock.rate");
            reveal_strlit("value:");
            reveal_strlit("value:'");
        }
        let e = piece_end_at(&v, pos, n, '\n');
        let ghost line = v@.subrange(pos as int, e as int);
        if contains_at(&v, pos, e, "clock.rate") && contains_at(&v, pos, e, "value:") {
            let found = find_text(&v, pos, e, "value:'");
            proof {
                lemma_find_from_general(v@.subrange(0, e as int), "value:'"@, pos as int, 0);
                assert(v@.subrange(0, e as int).subrange(pos as int, e as int) =~= line);
            }
            if let Some(st) = found {
                proof {
                    lemma_find_from_bounds(v@.subrange(0, e as int), "value:'"@, pos as int);
                }
                let ghost after = v@.subrange(st + 7, e as int);
                assert(after =~= line.subrange(st + 7 - pos, line.len() as int));
                let close = find_char(&v, st + 7, e, '\'');
                proof {
                    lemma_find_char_shift(v@.subrange(0, e as int), '\'', st + 7);
                    assert(v@.subrange(0, e as int).subrange(st + 7, e as int) =~= after);
                }
                if let Some(end) = close {
                    assert(v@.subrange(st + 7, end as int) =~= after.subrange(0, end - (st + 7)));
                    return parse_u32_in(&v, st + 7, end);
                }
            }
        }
        if e < n {
            pos = e + 1;
        } else {
            return None;
        }
    }
}

/// The fields of the sink block being read.
pub struct SinkFields {
    pub name: Option<Seq<char>>,
    pub description: Option<Seq<char>>,
    pub rate: Option<u32>,
    pub hardware: bool,
    pub bus: Option<Seq<char>>,
}

/// No field read yet.
pub open spec fn no_fields() -> SinkFields {
    SinkFields { name: None, description: None, rate: None, hardware: false, bus: None }
}

/// The device that the fields read make, when they include a name and a
/// description (no description or rate list: PipeWire converts rates).
pub open spec fn finished_sink(f: SinkFields, default_sink: Option<Seq<char>>) -> Seq<DeviceSpec> {
    match (f.name, f.description) {
        (Some(id), Some(name)) => seq![DeviceSpec {
            id: id,
            name: name,
            description: None,
            is_default: default_sink == Some(id),
            max_sample_rate: f.rate,
            supported_sample_rates: None,
            device_bus: f.bus,
            is_hardware: f.hardware,
        }],
        _ => Seq::empty(),
    }
}

/// The rate of a `Sample Specification:` line: the number before the first
/// `Hz`, after the last space before it.
pub open spec fn spec_line_rate(t: Seq<char>) -> Option<u32> {
    match find_from(t, "Hz"@, 0) {
        Some(h) => {
            let before = t.subrange(0, h);
            match rfind_char(before, ' ') {
                Some(sp) => parse_u32(before.subrange(sp + 1, before.len() as int)),
                None => None,
            }
        },
        None => None,
    }
}

/// The fields after reading the trimmed line `t` (a `Sink #` line starts a
/// new block and is handled apart).
pub open spec fn read_field(f: SinkFields, t: Seq<char>) -> SinkFields {
    if has_prefix(t, "Name:"@) {
        SinkFields { name: Some(trim(strip_all_prefix(t, "Name:"@))), ..f }
    } else if has_prefix(t, "Description:"@) {
        SinkFields { description: Some(trim(strip_all_prefix(t, "Description:"@))), ..f }
    } else if has_prefix(t, "Flags:"@) {
        SinkFields { hardware: contains_text(t, "HARDWARE"@), ..f }
    } else if contains_text(t, "Sample Specification:"@) {
        match spec_line_rate(t) {
            Some(r) => SinkFields { rate: Some(r), ..f },
            None => f,
        }
    } else if has_prefix(t, "device.bus = "@) {
        SinkFields { bus: Some(trim_char(strip_all_prefix(t, "device.bus = "@), '"')), ..f }
    } else {
        f
    }
}

/// The sinks of a `pactl list sinks` text from the line at `pos` on, given
/// the fields of the block being read.
pub open spec fn sinks_scan(s: Seq<char>, default_sink: Option<Seq<char>>, pos: int, f: SinkFields) -> Seq<DeviceSpec>
    decreases s.len() + 1 - pos,
{
    if pos < 0 || pos > s.len() {
        finished_sink(f, default_sink)
    } else {
        proof {
            lemma_piece_end_bounds(s, '\n', pos);
        }
        let e = piece_end(s, '\n', pos);
        let t = trim(s.subrange(pos, e));
        let (done, f2) = if has_prefix(t, "Sink #"@) {
            (finished_sink(f, default_sink), no_fields())
        } else {
            (Seq::empty(), read_field(f, t))
        };
        if e < s.len() {
            done + sinks_scan(s, default_sink, e + 1, f2)
        } else {
            done + finished_sink(f2, default_sink)
        }
    }
}

/// The fields as text positions in the scanned characters.
struct FieldBounds {
    name: Option<(usize, usize)>,
    description: Option<(usize, usize)>,
    rate: Option<u32>,
    hardware: bool,
    bus: Option<(usize, usize)>,
}

spec fn opt_sub(v: Seq<char>, b: Option<(usize, usize)>) -> Option<Seq<char>> {
    match b {
        Some((x, y)) => Some(v.subrange(x as int, y as int)),
        None => None,
    }
}

spec fn bounds_ok(b: Option<(usize, usize)>, n: int) -> bool {
    b matches Some((x, y)) ==> x <= y <= n
}

spec fn fields_of(v: Seq<char>, fb: FieldBounds) -> SinkFields {
    SinkFields {
        name: opt_sub(v, fb.name),
        description: opt_sub(v, fb.description),
        rate: fb.rate,
        hardware: fb.hardware,
        bus: opt_sub(v, fb.bus),
    }
}

/// The rate of the `Sample Specification:` line `v[a..b]`.
fn line_rate(v: &Vec<char>, a: usize, b: usize) -> (r: Option<u32>)
    requires
        a <= b <= v@.len(),
    ensures
        r == spec_line_rate(v@.subrange(a as int, b as int)),
{
    proof {
        reveal_strlit("Hz");
    }
    let ghost t = v@.subrange(a as int, b as int);
    let found = find_text(v, a, b, "Hz");
    proof {
        lemma_find_from_general(v@.subrange(0, b as int), "Hz"@, a as int, 0);
        assert(v@.subrange(0, b as int).subrange(a as int, b as int) =~= t);
    }
    match found {
        None => None,
        Some(h) => {
            proof {
                lemma_find_from_bounds(v@.subrange(0, b as int), "Hz"@, a as int);
            }
            assert(v@.subrange(a as int, h as int) =~= t.subrange(0, h - a));
            match rfind_char_at(v, a, h, ' ') {
                Some(sp) => {
                    assert(v@.subrange(sp + 1, h as int) =~= t.subrange(0, h - a).subrange(sp + 1 - a, h - a));
                    parse_u32_in(v, sp + 1, h)
                },
                None => None,
            }
        },
    }
}

/// The sink made from the fields read, if they include a name and a
/// description.
fn finish_sink(s: &str, v: &Vec<char>, fb: &FieldBounds, default_sink: Option<&str>, out: &mut Vec<AudioDevice>)
    requires
        v@ == s@,
        bounds_ok(fb.name, v@.len() as int),
        bounds_ok(fb.description, v@.len() as int),
        bounds_ok(fb.bus, v@.len() as int),
    ensures
        final(out)@.map_values(|x: AudioDevice| device_view(x)) == old(out)@.map_values(|x: AudioDevice| device_view(x))
            + finished_sink(fields_of(v@, *fb), match default_sink { Some(d) => Some(d@), None => None }),
{
    let ghost before = out@;
    match (fb.name, fb.description) {
        (Some((n0, n1)), Some((d0, d1))) => {
            let id = substring(s, n0, n1);
            let is_default = match default_sink {
                Some(d) => str_eq(d, id.as_str()),
                None => false,
            };
            let bus = match fb.bus {
                Some((b0, b1)) => Some(substring(s, b0, b1)),
                None => None,
            };
            out.push(AudioDevice {
                id,
                name: substring(s, d0, d1),
                description: None,
                is_default,
                max_sample_rate: fb.rate,
                supported_sample_rates: None,
                device_bus: bus,
                is_hardware: fb.hardware,
            });
            assert(out@.map_values(|x: AudioDevice| device_view(x)) =~= before.map_values(|x: AudioDevice| device_view(x))
                + finished_sink(fields_of(v@, *fb), match default_sink { Some(d) => Some(d@), None => None }));
        },
        _ => {
            assert(out@.map_values(|x: AudioDevice| device_view(x)) =~= before.map_values(|x: AudioDevice| device_view(x))
                + finished_sink(fields_of(v@, *fb), match default_sink { Some(d) => Some(d@), None => None }));
        },
    }
}

/// The sinks of a `pactl list sinks` text with their pretty names, marking
/// the one named `default_sink` (the output of `pactl get-default-sink`,
/// trimmed) as the default.
pub fn enumerate_pipewire_sinks(pactl_output: &str, default_sink: Option<&str>) -> (r: Vec<AudioDevice>)
    ensures
        r@.map_values(|x: AudioDevice| device_view(x)) == sinks_scan(
            pactl_output@,
            match default_sink { Some(d) => Some(d@), None => None },
            0,
            no_fields(),
        ),
{
    let v = to_chars(pactl_output);
    let n = v.len();
    let ghost dflt = match default_sink { Some(d) => Some(d@), None => None };
    let mut out: Vec<AudioDevice> = Vec::new();
    let mut fb = FieldBounds { name: None, description: None, rate: None, hardware: false, bus: None };
    let mut pos: usize = 0;
    loop
        invariant
            n == v@.len(),
            v@ == pactl_output@,
            v@.subrange(0, n as int) == v@,
            dflt == (match default_sink { Some(d) => Some(d@), None => None::<Seq<char>> }),
            0 <= pos <= n,
            bounds_ok(fb.name, n as int),
            bounds_ok(fb.description, n as int),
            bounds_ok(fb.bus, n as int),
            out@.map_values(|x: AudioDevice| device_view(x)) + sinks_scan(v@, dflt, pos as int, fields_of(v@, fb))
                == sinks_scan(v@, dflt, 0, no_fields()),
        decreases n - pos,
    {
        proof {
            reveal_strlit("Name:");
            reveal_strlit("Description:");
            reveal_strlit("Flags:");
            reveal_strlit("HARDWARE");
            reveal_strlit("Sample Specification:");
            reveal_strlit("device.bus = ");
        }
        let e = piece_end_at(&v, pos, n, '\n');
        let (a, b) = trim_bounds(&v, pos, e);
        let ghost t = v@.subrange(a as int, b as int);
        let ghost f0 = fields_of(v@, fb);
        let ghost out0 = out@;
        if has_prefix_at(&v, a, b, "Sink #") {
            finish_sink(pactl_output, &v, &fb, default_sink, &mut out);
            fb = FieldBounds { name: None, description: None, rate: None, hardware: false, bus: None };
        } else if has_prefix_at(&v, a, b, "Name:") {
            let c = strip_all_prefix_at(&v, a, b, "Name:");
            fb.name = Some(trim_bounds(&v, c, b));
        } else if has_prefix_at(&v, a, b, "Description:") {
            let c = strip_all_prefix_at(&v, a, b, "Description:");
            fb.description = Some(trim_bounds(&v, c, b));
        } else if has_prefix_at(&v, a, b, "Flags:") {
            fb.hardware = contains_at(&v, a, b, "HARDWARE");
        } else if contains_at(&v, a, b, "Sample Specification:") {
            match line_rate(&v, a, b) {
                Some(r) => {
                    fb.rate = Some(r);
                },
                None => {},
            }
        } else if has_prefix_at(&v, a, b, "device.bus = ") {
            let c = strip_all_prefix_at(&v, a, b, "device.bus = ");
            fb.bus = Some(trim_char_bounds(&v, c, b, '"'));
        }
        proof {
            if !has_prefix(t, "Sink #"@) {
                assert(fields_of(v@, fb) == read_field(f0, t));
                assert(out@ == out0);
            }
        }
        if e < n {
            pos = e + 1;
        } else {
            finish_sink(pactl_output, &v, &fb, default_sink, &mut out);
            return out;
        }
    }
}

/// The sample rate to open a PipeWire stream at for a track at `requested`
/// Hz, given the rates the sink's DAC lists (`None` when unknown).
pub fn effective_stream_rate(requested: u32, sink_rates: &Option<Vec<u32>>) -> (r: u32)
    ensures
        match sink_rates {
            Some(rates) => if rates@.contains(requested) {
                r == requested
            } else {
                crate::alsa_ids::best_fallback(requested, rates@, r)
            },
            None => r == requested,
        },
{
    match sink_rates {
        Some(rates) => {
            if crate::alsa_ids::contains_u32(rates, requested) {
                return requested;
            }
            crate::alsa_ids::find_best_fallback_rate(requested, rates.as_slice())
        },
        None => requested,
    }
}

/// ASCII lowercase of a character (`char::to_ascii_lowercase`).
pub open spec fn ascii_lower(c: char) -> char {
    if 'A' <= c && c <= 'Z' { ((c as int) + 32) as char } else { c }
}

/// ASCII lowercase of a text (`str::to_ascii_lowercase`).
pub open spec fn ascii_lower_text(s: Seq<char>) -> Seq<char> {
    s.map_values(|c: char| ascii_lower(c))
}

/// How well an output device name matches the PulseAudio/PipeWire server:
/// 3 for exactly "pipewire" or "pulse", 2 for the sound-server labels, 1 for
/// names that mention either, 0 otherwise (case ignored).
pub open spec fn server_score(name: Seq<char>) -> u8 {
    let l = ascii_lower_text(name);
    if l == "pipewire"@ || l == "pulse"@ {
        3
    } else if contains_text(l, "pipewire sound server"@) || contains_text(l, "pulseaudio sound server"@) {
        2
    } else if contains_text(l, "pipewire"@) || contains_text(l, "pulseaudio"@) {
        1
    } else {
        0
    }
}

/// The ASCII-lowercased characters of `s`.
fn ascii_lower_chars(s: &str) -> (r: Vec<char>)
    ensures
        r@ == ascii_lower_text(s@),
{
    let v = to_chars(s);
    let mut out: Vec<char> = Vec::new();
    let mut i: usize = 0;
    while i < v.len()
        invariant
            0 <= i <= v@.len(),
            v@ == s@,
            out@ == ascii_lower_text(v@.subrange(0, i as int)),
        decreases v@.len() - i,
    {
        let c = v[i];
        let l = if 'A' <= c && c <= 'Z' {
            (((c as u32) + 32) as u8) as char
        } else {
            c
        };
        out.push(l);
        i += 1;
        assert(out@ =~= ascii_lower_text(v@.subrange(0, i as int)));
    }
    assert(v@.subrange(0, v@.len() as int) =~= v@);
    out
}

/// The server score of an output device name.
pub fn pipewire_device_score(name: &str) -> (r: u8)
    ensures
        r == server_score(name@),
{
    proof {
        reveal_strlit("pipewire sound server");
        reveal_strlit("pulseaudio sound server");
        reveal_strlit("pipewire");
        reveal_strlit("pulseaudio");
    }
    let l = ascii_lower_chars(name);
    let n = l.len();
    if crate::text::text_eq_at(&l, 0, n, "pipewire") || crate::text::text_eq_at(&l, 0, n, "pulse") {
        assert(l@.subrange(0, n as int) =~= l@);
        return 3;
    }
    assert(l@.subrange(0, n as int) =~= l@);
    if contains_at(&l, 0, n, "pipewire sound server") || contains_at(&l, 0, n, "pulseaudio sound server") {
        2
    } else if contains_at(&l, 0, n, "pipewire") || contains_at(&l, 0, n, "pulseaudio") {
        1
    } else {
        0
    }
}

/// The output device to stream through: the first one with the highest
/// server score, `None` when no device name points to the sound server.
pub fn pick_pipewire_device(names: &Vec<String>) -> (r: Option<usize>)
    ensures
        match r {
            Some(i) => i < names@.len() && server_score(names@[i as int]@) > 0
                && (forall|k: int| 0 <= k < names@.len() ==> server_score(#[trigger] names@[k]@) <= server_score(names@[i as int]@))
                && (forall|k: int| 0 <= k < i ==> server_score(#[trigger] names@[k]@) < server_score(names@[i as int]@)),
            None => forall|k: int| 0 <= k < names@.len() ==> server_score(#[trigger] names@[k]@) == 0,
        },
{
    let mut best: Option<usize> = None;
    let mut best_score: u8 = 0;
    let mut i: usize = 0;
    while i < names.len()
        invariant
            0 <= i <= names@.len(),
            match best {
                Some(b) => b < i && best_score == server_score(names@[b as int]@) && best_score > 0
                    && (forall|k: int| 0 <= k < i ==> server_score(#[trigger] names@[k]@) <= best_score)
                    && (forall|k: int| 0 <= k < b ==> server_score(#[trigger] names@[k]@) < best_score),
                None => best_score == 0 && forall|k: int| 0 <= k < i ==> server_score(#[trigger] names@[k]@) == 0,
            },
        decreases names@.len() - i,
    {
        let score = pipewire_device_score(names[i].as_str());
        if score > best_score {
            best_score = score;
            best = Some(i);
        }
        i += 1;
    }
    best
}

/// Whether one of the device's output configs (channels, min rate, max
/// rate) has `channels` channels and holds `rate`.
pub fn config_supports(configs: &Vec<(u16, u32, u32)>, channels: u16, rate: u32) -> (r: bool)
    ensures
        r == exists|k: int| 0 <= k < configs@.len() && (#[trigger] configs@[k]).0 == channels
            && configs@[k].1 <= rate && rate <= configs@[k].2,
{
    let mut k: usize = 0;
    while k < configs.len()
        invariant
            0 <= k <= configs@.len(),
            forall|j: int| 0 <= j < k ==> !((#[trigger] configs@[j]).0 == channels
                && configs@[j].1 <= rate && rate <= configs@[j].2),
        decreases configs@.len() - k,
    {
        let (ch, lo, hi) = configs[k];
        if ch == channels && lo <= rate && rate <= hi {
            return true;
        }
        k += 1;
    }
    false
}

/// The output buffer size (frames): 512 in exclusive mode, a tenth of a
/// second at `rate` otherwise.
pub fn stream_buffer_frames(exclusive: bool, rate: u32) -> (r: u32)
    ensures
        r == (if exclusive { 512 } else { rate / 10 }),
{
    if exclusive { 512 } else { rate / 10 }
}

/// Whether the forced clock rate is applied again once the stream exists:
/// for every rate but 44.1 kHz and 48 kHz, which the graph falls back to.
pub fn needs_rate_reapply(rate: u32) -> (r: bool)
    ensures
        r == (rate != 44100 && rate != 48000),
{
    rate != 44100 && rate != 48000
}

} // verus!
