//! The ALSA device list: built from the `/proc/asound` card table, which
//! always lists every card, and enriched with the sample rates that the
//! output-config query of each PCM reports where it answers.

use vstd::prelude::*;
use crate::alsa_ids::ProcCardInfo;
use crate::audio_device::{device_view, opt_text, AudioDevice, DeviceSpec};
use crate::text::{
    contains_at, contains_text, has_prefix, has_prefix_at, push_decimal, decimal, replace_all, replace_all_from,
    str_eq, to_chars,
};
use crate::alsa_ids::{best_fallback, find_best_fallback_rate};
use crate::pipewire::config_supports;

verus! {

/// The sample rates checked against a device's output configs.
pub open spec fn common_rates() -> Seq<u32> {
    seq![44100u32, 48000, 88200, 96000, 176400, 192000, 352800, 384000]
}

/// Whether one of the config ranges (min, max) holds `rate`.
pub open spec fn in_some_range(ranges: Seq<(u32, u32)>, rate: u32) -> bool {
    exists|k: int| 0 <= k < ranges.len() && ranges[k].0 <= rate && rate <= #[trigger] ranges[k].1
}

/// The common rates from the `i`-th on that some range holds, in order.
pub open spec fn rates_in(ranges: Seq<(u32, u32)>, i: int) -> Seq<u32>
    decreases common_rates().len() - i,
{
    if i < 0 || i >= common_rates().len() {
        Seq::empty()
    } else if in_some_range(ranges, common_rates()[i]) {
        seq![common_rates()[i]] + rates_in(ranges, i + 1)
    } else {
        rates_in(ranges, i + 1)
    }
}

/// The supported rates of a device with output config ranges `ranges`:
/// `None` without configs or when no common rate is in range.
pub open spec fn supported_rates(ranges: Seq<(u32, u32)>) -> Option<Seq<u32>> {
    if ranges.len() == 0 || rates_in(ranges, 0).len() == 0 {
        None
    } else {
        Some(rates_in(ranges, 0))
    }
}

fn common_rates_vec() -> (r: Vec<u32>)
    ensures
        r@ == common_rates(),
{
    let r = vec![44100u32, 48000, 88200, 96000, 176400, 192000, 352800, 384000];
    assert(r@ =~= common_rates());
    r
}

/// Whether one of the ranges holds `rate`.
fn range_holds(ranges: &Vec<(u32, u32)>, rate: u32) -> (r: bool)
    ensures
        r == in_some_range(ranges@, rate),
{
    let mut k: usize = 0;
    while k < ranges.len()
        invariant
            0 <= k <= ranges@.len(),
            forall|j: int| 0 <= j < k ==> !(ranges@[j].0 <= rate && rate <= #[trigger] ranges@[j].1),
        decreases ranges@.len() - k,
    {
        let (lo, hi) = ranges[k];
        if lo <= rate && rate <= hi {
            return true;
        }
        k += 1;
    }
    false
}

/// The common sample rates (44.1 kHz to 384 kHz) that a device's output
/// config ranges `(min, max)` cover; `None` when the device has no configs
/// or none is covered.
pub fn get_supported_sample_rates(config_ranges: &Vec<(u32, u32)>) -> (r: Option<Vec<u32>>)
    ensures
        match r {
            Some(v) => supported_rates(config_ranges@) == Some(v@),
            None => supported_rates(config_ranges@) is None,
        },
{
    if config_ranges.len() == 0 {
        return None;
    }
    let rates = common_rates_vec();
    let mut out: Vec<u32> = Vec::new();
    let mut i: usize = 0;
    while i < rates.len()
        invariant
            rates@ == common_rates(),
            0 <= i <= rates@.len(),
            out@ + rates_in(config_ranges@, i as int) == rates_in(config_ranges@, 0),
        decreases rates@.len() - i,
    {
        let rate = rates[i];
        if range_holds(config_ranges, rate) {
            let ghost before = out@;
            out.push(rate);
            assert(before + rates_in(config_ranges@, i as int) =~= out@ + rates_in(config_ranges@, i + 1));
        }
        i += 1;
    }
    assert(out@ =~= rates_in(config_ranges@, 0));
    if out.len() == 0 {
        None
    } else {
        Some(out)
    }
}

/// Lowercases `s` as `str::to_lowercase` does (Unicode lowercase mapping).
pub uninterp spec fn unicode_lowercase(s: Seq<char>) -> Seq<char>;

/// `str::to_lowercase`: the Unicode lowercase form of `s`. Its result
/// depends on `s` alone; the mapping is named, not stated.
#[verifier::external_body]
fn to_lowercase(s: &str) -> (r: String)
    ensures
        r@ == unicode_lowercase(s@),
{
    s.to_lowercase()
}

/// The output-config ranges that the device named `id` reported: those of
/// the last entry with that name, `None` when there is none or its query
/// failed.
pub open spec fn reported_ranges(cpal: Seq<(String, Option<Vec<(u32, u32)>>)>, id: Seq<char>, n: int) -> Option<Seq<(u32, u32)>>
    decreases n,
{
    if n <= 0 || n > cpal.len() {
        None
    } else if cpal[n - 1].0@ == id {
        match cpal[n - 1].1 {
            Some(v) => Some(v@),
            None => None,
        }
    } else {
        reported_ranges(cpal, id, n - 1)
    }
}

/// The supported rates of the device named `id`, from its reported ranges.
pub open spec fn rates_for(cpal: Seq<(String, Option<Vec<(u32, u32)>>)>, id: Seq<char>) -> Option<Seq<u32>> {
    match reported_ranges(cpal, id, cpal.len() as int) {
        Some(r) => supported_rates(r),
        None => None,
    }
}

/// The largest of the values of `v` (0 when there is none).
pub open spec fn seq_max(v: Seq<u32>) -> u32
    decreases v.len(),
{
    if v.len() == 0 {
        0
    } else if v.last() >= seq_max(v.drop_last()) {
        v.last()
    } else {
        seq_max(v.drop_last())
    }
}

/// The highest known rate, or `fallback` when none is known.
pub open spec fn max_rate_or(rates: Option<Seq<u32>>, fallback: u32) -> u32 {
    match rates {
        Some(v) => if v.len() > 0 { seq_max(v) } else { fallback },
        None => fallback,
    }
}

/// The system default device.
pub open spec fn default_device(cpal: Seq<(String, Option<Vec<(u32, u32)>>)>) -> DeviceSpec {
    DeviceSpec {
        id: "default"@,
        name: "default"@,
        description: None,
        is_default: true,
        max_sample_rate: Some(max_rate_or(rates_for(cpal, "default"@), 384000)),
        supported_sample_rates: rates_for(cpal, "default"@),
        device_bus: None,
        is_hardware: false,
    }
}

/// The card's default device (`sysdefault:`, software mixing).
pub open spec fn sysdefault_device(card: ProcCardInfo, cpal: Seq<(String, Option<Vec<(u32, u32)>>)>) -> DeviceSpec {
    let id = "sysdefault:CARD="@ + card.short_name@;
    DeviceSpec {
        id: id,
        name: id,
        description: Some(card.long_name@ + ", "@ + id),
        is_default: false,
        max_sample_rate: Some(max_rate_or(rates_for(cpal, id), 192000)),
        supported_sample_rates: rates_for(cpal, id),
        device_bus: None,
        is_hardware: false,
    }
}

/// The alias prefix for a PCM of that name: `hdmi`, `iec958` for S/PDIF
/// outputs, `front` for the rest.
pub open spec fn pcm_prefix(name: Seq<char>) -> Seq<char> {
    let l = unicode_lowercase(name);
    if contains_text(l, "hdmi"@) {
        "hdmi"@
    } else if contains_text(l, "iec958"@) || contains_text(l, "spdif"@) || contains_text(l, "s/pdif"@) {
        "iec958"@
    } else {
        "front"@
    }
}

/// The hardware device of a PCM of a card.
pub open spec fn pcm_device(card: ProcCardInfo, device_num: Seq<char>, name: Seq<char>, cpal: Seq<(String, Option<Vec<(u32, u32)>>)>) -> DeviceSpec {
    let id = pcm_prefix(name) + ":CARD="@ + card.short_name@ + ",DEV="@ + device_num;
    DeviceSpec {
        id: id,
        name: id,
        description: Some(card.long_name@ + ", "@ + id),
        is_default: false,
        max_sample_rate: Some(max_rate_or(rates_for(cpal, id), 384000)),
        supported_sample_rates: rates_for(cpal, id),
        device_bus: None,
        is_hardware: true,
    }
}

/// Whether a device with that id is in the list.
pub open spec fn has_device_id(list: Seq<DeviceSpec>, id: Seq<char>) -> bool {
    exists|k: int| 0 <= k < list.len() && (#[trigger] list[k]).id == id
}

/// The list after adding the PCM devices of `card` from the `j`-th on,
/// skipping ids already listed.
pub open spec fn add_pcms(acc: Seq<DeviceSpec>, card: ProcCardInfo, j: int, cpal: Seq<(String, Option<Vec<(u32, u32)>>)>) -> Seq<DeviceSpec>
    decreases card.pcm_playback_devices@.len() - j,
{
    if j < 0 || j >= card.pcm_playback_devices@.len() {
        acc
    } else {
        let pcm = card.pcm_playback_devices@[j];
        let d = pcm_device(card, pcm.device_num@, pcm.name@, cpal);
        let acc2 = if has_device_id(acc, d.id) { acc } else { acc.push(d) };
        add_pcms(acc2, card, j + 1, cpal)
    }
}

/// The list after adding the devices of the cards from the `i`-th on.
pub open spec fn add_cards(acc: Seq<DeviceSpec>, cards: Seq<ProcCardInfo>, i: int, cpal: Seq<(String, Option<Vec<(u32, u32)>>)>) -> Seq<DeviceSpec>
    decreases cards.len() - i,
{
    if i < 0 || i >= cards.len() {
        acc
    } else {
        add_cards(add_pcms(acc.push(sysdefault_device(cards[i], cpal)), cards[i], 0, cpal), cards, i + 1, cpal)
    }
}

/// The ALSA device list: the system default, then for each card its
/// `sysdefault:` device and one device per PCM.
pub open spec fn alsa_device_list(cards: Seq<ProcCardInfo>, cpal: Seq<(String, Option<Vec<(u32, u32)>>)>) -> Seq<DeviceSpec> {
    add_cards(seq![default_device(cpal)], cards, 0, cpal)
}

/// The supported rates of the device `id`, from the reported config ranges.
fn rates_for_device(cpal: &Vec<(String, Option<Vec<(u32, u32)>>)>, id: &str) -> (r: Option<Vec<u32>>)
    ensures
        match r {
            Some(v) => rates_for(cpal@, id@) == Some(v@),
            None => rates_for(cpal@, id@) is None,
        },
{
    let mut n: usize = cpal.len();
    while n > 0
        invariant
            0 <= n <= cpal@.len(),
            reported_ranges(cpal@, id@, cpal@.len() as int) == reported_ranges(cpal@, id@, n as int),
        decreases n,
    {
        if str_eq(cpal[n - 1].0.as_str(), id) {
            return match &cpal[n - 1].1 {
                Some(ranges) => get_supported_sample_rates(ranges),
                None => None,
            };
        }
        n -= 1;
    }
    None
}

/// The highest of the rates, or `fallback` when there is none.
fn max_rate(rates: &Option<Vec<u32>>, fallback: u32) -> (r: u32)
    ensures
        r == max_rate_or(match rates { Some(v) => Some(v@), None => None }, fallback),
{
    match rates {
        Some(v) => {
            if v.len() == 0 {
                return fallback;
            }
            let mut best: u32 = 0;
            let mut i: usize = 0;
            while i < v.len()
                invariant
                    0 <= i <= v@.len(),
                    best == seq_max(v@.subrange(0, i as int)),
                decreases v@.len() - i,
            {
                assert(v@.subrange(0, i + 1).drop_last() =~= v@.subrange(0, i as int));
                if v[i] >= best {
                    best = v[i];
                }
                i += 1;
            }
            assert(v@.subrange(0, v@.len() as int) =~= v@);
            best
        },
        None => fallback,
    }
}

/// Whether a device with id `id` is in `list`.
fn list_has_id(list: &Vec<AudioDevice>, id: &str) -> (r: bool)
    ensures
        r == has_device_id(list@.map_values(|d: AudioDevice| device_view(d)), id@),
{
    let ghost views = list@.map_values(|d: AudioDevice| device_view(d));
    let mut k: usize = 0;
    while k < list.len()
        invariant
            0 <= k <= list@.len(),
            views == list@.map_values(|d: AudioDevice| device_view(d)),
            forall|j: int| 0 <= j < k ==> (#[trigger] views[j]).id != id@,
        decreases list@.len() - k,
    {
        if str_eq(list[k].id.as_str(), id) {
            assert(views[k as int].id == id@);
            return true;
        }
        k += 1;
    }
    false
}

/// The id and description of a device of `card` named `id`.
fn described(card: &ProcCardInfo, id: &String) -> (r: String)
    ensures
        r@ == card.long_name@ + ", "@ + id@,
{
    let mut d = card.long_name.clone();
    d.append(", ");
    d.append(id.as_str());
    d
}

/// The alias prefix for a PCM named `name`.
fn prefix_for(name: &str) -> (r: &'static str)
    ensures
        r@ == pcm_prefix(name@),
{
    let lower = to_lowercase(name);
    let v = to_chars(lower.as_str());
    let n = v.len();
    assert(v@.subrange(0, n as int) =~= v@);
    proof {
        reveal_strlit("hdmi");
        reveal_strlit("iec958");
        reveal_strlit("spdif");
        reveal_strlit("s/pdif");
    }
    if contains_at(&v, 0, n, "hdmi") {
        "hdmi"
    } else if contains_at(&v, 0, n, "iec958") || contains_at(&v, 0, n, "spdif") || contains_at(&v, 0, n, "s/pdif") {
        "iec958"
    } else {
        "front"
    }
}

/// The ALSA output devices: the system default, then for each card of
/// `cards` (the `/proc/asound` table) its `sysdefault:CARD=<name>` device
/// and one `front:`, `hdmi:` or `iec958:` device per playback PCM, by card
/// name so the ids stay stable. The rates come from `cpal`, the output
/// config ranges each PCM reported by name (`None` where the query failed);
/// without them the highest rate is assumed (192 kHz for `sysdefault:`,
/// 384 kHz otherwise).
pub fn enumerate_with_proc_descriptions(
    cards: &Vec<ProcCardInfo>,
    cpal: &Vec<(String, Option<Vec<(u32, u32)>>)>,
) -> (r: Vec<AudioDevice>)
    ensures
        r@.map_values(|d: AudioDevice| device_view(d)) == alsa_device_list(cards@, cpal@),
{
    let mut devices: Vec<AudioDevice> = Vec::new();
    let default_rates = rates_for_device(cpal, "default");
    let default_max = max_rate(&default_rates, 384000);
    devices.push(AudioDevice {
        id: String::from_str("default"),
        name: String::from_str("default"),
        description: None,
        is_default: true,
        max_sample_rate: Some(default_max),
        supported_sample_rates: default_rates,
        device_bus: None,
        is_hardware: false,
    });
    assert(devices@.map_values(|d: AudioDevice| device_view(d)) =~= seq![default_device(cpal@)]);
    let mut i: usize = 0;
    while i < cards.len()
        invariant
            0 <= i <= cards@.len(),
            add_cards(devices@.map_values(|d: AudioDevice| device_view(d)), cards@, i as int, cpal@)
                == alsa_device_list(cards@, cpal@),
        decreases cards@.len() - i,
    {
        let card = &cards[i];
        let mut sys_id = String::from_str("sysdefault:CARD=");
        sys_id.append(card.short_name.as_str());
        let sys_rates = rates_for_device(cpal, sys_id.as_str());
        let sys_max = max_rate(&sys_rates, 192000);
        let ghost before = devices@;
        devices.push(AudioDevice {
            id: sys_id.clone(),
            name: sys_id.clone(),
            description: Some(described(card, &sys_id)),
            is_default: false,
            max_sample_rate: Some(sys_max),
            supported_sample_rates: sys_rates,
            device_bus: None,
            is_hardware: false,
        });
        assert(devices@.map_values(|d: AudioDevice| device_view(d))
            =~= before.map_values(|d: AudioDevice| device_view(d)).push(sysdefault_device(*card, cpal@)));
        let mut j: usize = 0;
        while j < card.pcm_playback_devices.len()
            invariant
                0 <= j <= card.pcm_playback_devices@.len(),
                card == &cards@[i as int],
                i < cards@.len(),
                add_cards(
                    add_pcms(devices@.map_values(|d: AudioDevice| device_view(d)), *card, j as int, cpal@),
                    cards@,
                    i + 1,
                    cpal@,
                ) == alsa_device_list(cards@, cpal@),
            decreases card.pcm_playback_devices@.len() - j,
        {
            let pcm = &card.pcm_playback_devices[j];
            let mut id = String::from_str(prefix_for(pcm.name.as_str()));
            id.append(":CARD=");
            id.append(card.short_name.as_str());
            id.append(",DEV=");
            id.append(pcm.device_num.as_str());
            if !list_has_id(&devices, id.as_str()) {
                let rates = rates_for_device(cpal, id.as_str());
                let top = max_rate(&rates, 384000);
                let ghost before2 = devices@;
                devices.push(AudioDevice {
                    id: id.clone(),
                    name: id.clone(),
                    description: Some(described(card, &id)),
                    is_default: false,
                    max_sample_rate: Some(top),
                    supported_sample_rates: rates,
                    device_bus: None,
                    is_hardware: true,
                });
                assert(devices@.map_values(|d: AudioDevice| device_view(d))
                    =~= before2.map_values(|d: AudioDevice| device_view(d)).push(
                        pcm_device(*card, pcm.device_num@, pcm.name@, cpal@),
                    ));
            }
            j += 1;
        }
        i += 1;
    }
    devices
}

/// The ALSA plugin that the settings ask for.
#[derive(Debug, Clone, Copy, PartialEq, Eq, Structural)]
pub enum AlsaPlugin {
    /// Direct `hw:` access.
    Hw,
    /// `plughw:` with format conversion.
    PlugHw,
    /// A PCM through CPAL.
    Pcm,
}

/// The devices a direct stream tries, for a device id: the hardware device
/// first and the plugin device to fall back to.
pub open spec fn direct_devices(id: Seq<char>) -> (Seq<char>, Seq<char>) {
    if has_prefix(id, "front:CARD="@) {
        (id, "plug:"@ + id)
    } else if has_prefix(id, "hw:"@) {
        (id, replace_all(id, "hw:"@, "plughw:"@))
    } else if has_prefix(id, "plughw:"@) {
        (replace_all(id, "plughw:"@, "hw:"@), id)
    } else {
        (id, "plug:"@ + id)
    }
}

/// The hardware device and the plugin fallback device that a direct ALSA
/// stream to `device_id` tries.
pub fn direct_stream_devices(device_id: &str) -> (r: (String, String))
    ensures
        (r.0@, r.1@) == direct_devices(device_id@),
{
    let v = to_chars(device_id);
    let n = v.len();
    assert(v@.subrange(0, n as int) =~= v@);
    proof {
        reveal_strlit("hw:");
        reveal_strlit("plughw:");
    }
    if has_prefix_at(&v, 0, n, "front:CARD=") {
        let mut plug = String::from_str("plug:");
        plug.append(device_id);
        (String::from_str(device_id), plug)
    } else if has_prefix_at(&v, 0, n, "hw:") {
        (String::from_str(device_id), replace_all_from(device_id, &v, 0, "hw:", "plughw:"))
    } else if has_prefix_at(&v, 0, n, "plughw:") {
        (replace_all_from(device_id, &v, 0, "plughw:", "hw:"), String::from_str(device_id))
    } else {
        let mut plug = String::from_str("plug:");
        plug.append(device_id);
        (String::from_str(device_id), plug)
    }
}

/// Whether a direct stream tries the hardware device first (`Some(true)`),
/// goes straight to the plugin device (`Some(false)`), or is not used at all
/// (`None`, for the PCM plugin). The hardware device is skipped when its
/// rate list shows the rate unsupported.
pub fn try_hw_first(plugin: Option<AlsaPlugin>, hw_rate_unsupported: bool) -> (r: Option<bool>)
    ensures
        r == (match plugin {
            Some(AlsaPlugin::Pcm) => None,
            Some(AlsaPlugin::PlugHw) => Some(false),
            _ => Some(!hw_rate_unsupported),
        }),
{
    match plugin {
        Some(AlsaPlugin::Hw) => Some(!hw_rate_unsupported),
        Some(AlsaPlugin::PlugHw) => Some(false),
        Some(AlsaPlugin::Pcm) => None,
        None => Some(!hw_rate_unsupported),
    }
}

/// Which device a direct stream was being opened on.
#[derive(Debug, Clone, Copy, PartialEq, Eq, Structural)]
pub enum DirectOpenStage {
    /// The `hw:` device, bit-perfect.
    Hardware,
    /// The `plughw:` device, with format conversion.
    PlugHw,
}

/// How opening a direct stream failed, as far as the next step depends on it.
#[derive(Debug, Clone, Copy, PartialEq, Eq, Structural)]
pub enum DirectOpenError {
    DeviceBusy,
    /// The device refuses the format (typically the rate).
    InvalidParams,
    Other { allows_plughw_fallback: bool },
}

/// What to do after a failed open of a direct stream.
#[derive(Debug, Clone, Copy, PartialEq, Eq, Structural)]
pub enum DirectOpenNext {
    /// Suspend the sound server's sink and retry after each of
    /// `busy_retry_delays_ms`; fail when every retry fails.
    RetryWhileBusy,
    /// Give up on direct output: the shared output can resample.
    UseCpal,
    Fail,
    /// Try the `plughw:` device.
    TryPlugHw,
}

/// After a failed open: a busy device is retried; a refused format goes to
/// the shared output; on the hardware device other errors go on to the
/// plugin device when they allow it, and fail otherwise; on the plugin
/// device they fail.
pub fn after_direct_open_failure(stage: DirectOpenStage, error: DirectOpenError) -> (r: DirectOpenNext)
    ensures
        r == (match error {
            DirectOpenError::DeviceBusy => DirectOpenNext::RetryWhileBusy,
            DirectOpenError::InvalidParams => DirectOpenNext::UseCpal,
            DirectOpenError::Other { allows_plughw_fallback } => if stage == DirectOpenStage::Hardware
                && allows_plughw_fallback {
                DirectOpenNext::TryPlugHw
            } else {
                DirectOpenNext::Fail
            },
        }),
{
    match error {
        DirectOpenError::DeviceBusy => DirectOpenNext::RetryWhileBusy,
        DirectOpenError::InvalidParams => DirectOpenNext::UseCpal,
        DirectOpenError::Other { allows_plughw_fallback } => {
            if stage == DirectOpenStage::Hardware && allows_plughw_fallback {
                DirectOpenNext::TryPlugHw
            } else {
                DirectOpenNext::Fail
            }
        },
    }
}

/// The pauses (ms) between the retries of a busy device.
pub fn busy_retry_delays_ms() -> (r: Vec<u64>)
    ensures
        r@ == seq![50u64, 100, 200, 400, 800],
{
    let r = vec![50u64, 100, 200, 400, 800];
    assert(r@ =~= seq![50u64, 100, 200, 400, 800]);
    r
}

/// The (min, max) rate ranges of output configs given as (channels, min, max).
pub open spec fn config_ranges(configs: Seq<(u16, u32, u32)>) -> Seq<(u32, u32)> {
    configs.map_values(|c: (u16, u32, u32)| (c.1, c.2))
}

/// The rate the ALSA backend opens a CPAL stream at: the requested rate when
/// a config with the channel count holds it; else the best fallback among
/// the device's common rates; else the requested rate.
pub fn alsa_effective_rate(requested: u32, channels: u16, configs: &Vec<(u16, u32, u32)>) -> (r: u32)
    ensures
        (exists|k: int| 0 <= k < configs@.len() && (#[trigger] configs@[k]).0 == channels
            && configs@[k].1 <= requested && requested <= configs@[k].2) ==> r == requested,
        !(exists|k: int| 0 <= k < configs@.len() && (#[trigger] configs@[k]).0 == channels
            && configs@[k].1 <= requested && requested <= configs@[k].2) ==> match supported_rates(config_ranges(configs@)) {
            Some(rates) => best_fallback(requested, rates, r),
            None => r == requested,
        },
{
    if config_supports(configs, channels, requested) {
        return requested;
    }
    let mut ranges: Vec<(u32, u32)> = Vec::new();
    let mut i: usize = 0;
    while i < configs.len()
        invariant
            0 <= i <= configs@.len(),
            ranges@ == config_ranges(configs@.subrange(0, i as int)),
        decreases configs@.len() - i,
    {
        let (_, lo, hi) = configs[i];
        ranges.push((lo, hi));
        i += 1;
        assert(ranges@ =~= config_ranges(configs@.subrange(0, i as int)));
    }
    assert(configs@.subrange(0, configs@.len() as int) =~= configs@);
    match get_supported_sample_rates(&ranges) {
        Some(rates) => find_best_fallback_rate(requested, rates.as_slice()),
        None => requested,
    }
}

/// The error when the device `device_id` cannot be opened: present in the
/// card table (a rate, format or naming mismatch) or absent.
pub fn device_not_found_message(device_id: &str, sample_rate: u32, present_in_proc: bool) -> (r: String)
    ensures
        present_in_proc ==> r@ == "Device '"@ + device_id@
            + "' is present in /proc/asound but CPAL cannot open it (usually a sample-rate/format mismatch \u{2014} track rate "@
            + decimal(sample_rate as nat)
            + "Hz, or an ALSA name format mismatch). Try the plughw plugin in audio settings."@,
        !present_in_proc ==> r@ == "Device '"@ + device_id@
            + "' not found by the ALSA backend (disconnected, renamed, or handled by another app)"@,
{
    let mut m = String::from_str("Device '");
    m.append(device_id);
    if present_in_proc {
        m.append("' is present in /proc/asound but CPAL cannot open it (usually a sample-rate/format mismatch \u{2014} track rate ");
        push_decimal(&mut m, sample_rate);
        m.append("Hz, or an ALSA name format mismatch). Try the plughw plugin in audio settings.");
    } else {
        m.append("' not found by the ALSA backend (disconnected, renamed, or handled by another app)");
    }
    m
}

} // verus!
