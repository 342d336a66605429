//! Exclusive-access reservation of an ALSA card over the
//! `org.freedesktop.ReserveDevice1` convention.
//!
//! The reservation itself is not taken yet: `acquire` validates the device
//! string and hands out a degraded guard, which never reports itself active.

use vstd::prelude::*;
use crate::alsa_ids::ProcCardInfo;
use crate::text::{
    parse_i32, parse_i32_in,
    before_char, decimal, find_char, find_char_from, has_prefix, lemma_find_char_shift, has_prefix_at, parse_u32, parse_u32_in,
    push_decimal, push_signed_decimal, signed_decimal, str_eq, substring, to_chars, trim, trim_bounds,
};

verus! {

/// Why a reservation could not be made.
#[derive(Debug)]
pub enum ReservationError {
    InvalidDevice(String),
    HigherPriorityHolder { holder_name: String, holder_priority: i32 },
    DbusError(String),
    AlsaError(String),
}

/// The message of each error.
pub open spec fn reservation_error_message(e: ReservationError) -> Seq<char> {
    match e {
        ReservationError::InvalidDevice(s) => "invalid ALSA device string: "@ + s@,
        ReservationError::HigherPriorityHolder { holder_name, holder_priority } =>
            "device reserved by '"@ + holder_name@ + "' at priority "@ + signed_decimal(holder_priority as int),
        ReservationError::DbusError(s) => "D-Bus error: "@ + s@,
        ReservationError::AlsaError(s) => "ALSA error: "@ + s@,
    }
}

impl ReservationError {
    /// The human-readable message of the error.
    pub fn message(&self) -> (r: String)
        ensures
            r@ == reservation_error_message(*self),
    {
        match self {
            ReservationError::InvalidDevice(s) => {
                let mut m = String::from_str("invalid ALSA device string: ");
                m.append(s.as_str());
                m
            },
            ReservationError::HigherPriorityHolder { holder_name, holder_priority } => {
                let mut m = String::from_str("device reserved by '");
                m.append(holder_name.as_str());
                m.append("' at priority ");
                push_signed_decimal(&mut m, *holder_priority);
                m
            },
            ReservationError::DbusError(s) => {
                let mut m = String::from_str("D-Bus error: ");
                m.append(s.as_str());
                m
            },
            ReservationError::AlsaError(s) => {
                let mut m = String::from_str("ALSA error: ");
                m.append(s.as_str());
                m
            },
        }
    }
}

/// One entry of the ALSA card enumeration: the card's kernel index and its
/// name, or the enumeration error met at that point.
#[derive(Debug)]
pub enum CardEntry {
    Card { index: i32, name: String },
    Failed(String),
}

/// What names a card in a device string: a kernel index or a symbolic name.
pub enum CardRef {
    Index(u32),
    Name(Seq<char>),
}

/// The card part of a `hw:`/`plughw:` device string, `None` when the string
/// has no such prefix, an empty card part, or an index that is not a `u32`.
pub open spec fn card_ref_of(device: Seq<char>) -> Option<CardRef> {
    let t = trim(device);
    let after = if has_prefix(t, "hw:"@) {
        Some(t.subrange(3, t.len() as int))
    } else if has_prefix(t, "plughw:"@) {
        Some(t.subrange(7, t.len() as int))
    } else {
        None
    };
    match after {
        None => None,
        Some(a) => {
            let part = trim(before_char(a, ','));
            if part.len() == 0 {
                None
            } else if has_prefix(part, "CARD="@) {
                Some(CardRef::Name(part.subrange(5, part.len() as int)))
            } else {
                match parse_u32(part) {
                    Some(v) => Some(CardRef::Index(v)),
                    None => None,
                }
            }
        },
    }
}

/// The outcome of looking a card name up in the enumeration `cards`, from
/// entry `i` on: the index of the first card so named (as `u32`, wrapping),
/// the first enumeration error met before it, or `None` when neither occurs.
pub open spec fn lookup_card(cards: Seq<CardEntry>, name: Seq<char>, i: int) -> Option<Result<u32, Seq<char>>>
    decreases cards.len() - i,
{
    if i < 0 || i >= cards.len() {
        None
    } else {
        match cards[i] {
            CardEntry::Failed(e) => Some(Err(e@)),
            CardEntry::Card { index, name: n } => if n@ == name {
                Some(Ok(index as u32))
            } else {
                lookup_card(cards, name, i + 1)
            },
        }
    }
}

/// `parse_card_index` as a relation: `Ok(v)` exactly for the card index the
/// device string names (resolving names through `cards`), and the error
/// otherwise.
pub open spec fn card_index_result(device: Seq<char>, cards: Seq<CardEntry>, r: Result<u32, ReservationError>) -> bool {
    match card_ref_of(device) {
        None => r matches Err(ReservationError::InvalidDevice(s)) && s@ == device,
        Some(CardRef::Index(v)) => r == Ok::<u32, ReservationError>(v),
        Some(CardRef::Name(name)) => match lookup_card(cards, name, 0) {
            Some(Ok(v)) => r == Ok::<u32, ReservationError>(v),
            Some(Err(e)) => r matches Err(ReservationError::AlsaError(s)) && s@ == e,
            None => r matches Err(ReservationError::InvalidDevice(s))
                && s@ == "ALSA card '"@ + name + "' not found"@,
        },
    }
}

/// Resolve a symbolic card name to its kernel index through the enumeration
/// `cards`.
pub fn resolve_card_index_by_name(name: &str, cards: &Vec<CardEntry>) -> (r: Result<u32, ReservationError>)
    ensures
        match lookup_card(cards@, name@, 0) {
            Some(Ok(v)) => r == Ok::<u32, ReservationError>(v),
            Some(Err(e)) => r matches Err(ReservationError::AlsaError(s)) && s@ == e,
            None => r matches Err(ReservationError::InvalidDevice(s))
                && s@ == "ALSA card '"@ + name@ + "' not found"@,
        },
{
    let mut i: usize = 0;
    while i < cards.len()
        invariant
            0 <= i <= cards@.len(),
            lookup_card(cards@, name@, 0) == lookup_card(cards@, name@, i as int),
        decreases cards@.len() - i,
    {
        match &cards[i] {
            CardEntry::Failed(e) => {
                return Err(ReservationError::AlsaError(e.clone()));
            },
            CardEntry::Card { index, name: n } => {
                if str_eq(n.as_str(), name) {
                    return Ok(*index as u32);
                }
            },
        }
        i += 1;
    }
    let mut m = String::from_str("ALSA card '");
    m.append(name);
    m.append("' not found");
    Err(ReservationError::InvalidDevice(m))
}

/// The kernel card index that an ALSA device string names.
///
/// Accepts `hw:0`, `hw:0,0`, `plughw:1,0`, `hw:CARD=DacMagic` and
/// `hw:CARD=DacMagic,DEV=0` (surrounding white space allowed); a symbolic
/// name is looked up in the card enumeration `cards`.
pub fn parse_card_index(hw_device: &str, cards: &Vec<CardEntry>) -> (r: Result<u32, ReservationError>)
    ensures
        card_index_result(hw_device@, cards@, r),
{
    let v = to_chars(hw_device);
    let n = v.len();
    let (a, b) = trim_bounds(&v, 0, n);
    let ghost t = v@.subrange(a as int, b as int);
    assert(v@.subrange(0, n as int) =~= hw_device@);
    let start = if has_prefix_at(&v, a, b, "hw:") {
        proof { reveal_strlit("hw:"); }
        a + 3
    } else if has_prefix_at(&v, a, b, "plughw:") {
        proof { reveal_strlit("plughw:"); }
        a + 7
    } else {
        return Err(ReservationError::InvalidDevice(String::from_str(hw_device)));
    };
    let ghost after = v@.subrange(start as int, b as int);
    assert(after =~= t.subrange(start - a, t.len() as int));
    let comma = find_char(&v, start, b, ',');
    let stop = match comma {
        Some(k) => k,
        None => b,
    };
    proof {
        lemma_find_char_shift(v@.subrange(0, b as int), ',', start as int);
        assert(v@.subrange(0, b as int).subrange(start as int, b as int) =~= after);
        assert(v@.subrange(start as int, stop as int) =~= before_char(after, ','));
    }
    let (c, d) = trim_bounds(&v, start, stop);
    let ghost part = v@.subrange(c as int, d as int);
    if c == d {
        return Err(ReservationError::InvalidDevice(String::from_str(hw_device)));
    }
    if has_prefix_at(&v, c, d, "CARD=") {
        proof { reveal_strlit("CARD="); }
        let name = substring(hw_device, c + 5, d);
        assert(name@ =~= part.subrange(5, part.len() as int));
        resolve_card_index_by_name(name.as_str(), cards)
    } else {
        match parse_u32_in(&v, c, d) {
            Some(k) => Ok(k),
            None => Err(ReservationError::InvalidDevice(String::from_str(hw_device))),
        }
    }
}

/// The well-known D-Bus name for reserving the card `card_index`.
pub open spec fn bus_name(card_index: u32) -> Seq<char> {
    "org.freedesktop.ReserveDevice1.Audio"@ + decimal(card_index as nat)
}

/// The D-Bus object path for reserving the card `card_index`.
pub open spec fn object_path(card_index: u32) -> Seq<char> {
    "/org/freedesktop/ReserveDevice1/Audio"@ + decimal(card_index as nat)
}

/// The well-known D-Bus bus name for the ALSA card `card_index`.
pub fn bus_name_for_card(card_index: u32) -> (r: String)
    ensures
        r@ == bus_name(card_index),
{
    let mut s = String::from_str("org.freedesktop.ReserveDevice1.Audio");
    push_decimal(&mut s, card_index);
    s
}

/// The D-Bus object path for the ALSA card `card_index`.
pub fn object_path_for_card(card_index: u32) -> (r: String)
    ensures
        r@ == object_path(card_index),
{
    let mut s = String::from_str("/org/freedesktop/ReserveDevice1/Audio");
    push_decimal(&mut s, card_index);
    s
}

/// A guard over a device reservation. Only the degraded form exists: it
/// holds no D-Bus name.
#[derive(Debug)]
pub struct DeviceReservation {
    state: ReservationState,
}

/// The state of a reservation guard.
#[derive(Debug)]
enum ReservationState {
    /// No D-Bus reservation is held; the guard does nothing.
    Degraded,
}

impl DeviceReservation {
    /// Whether the guard holds a D-Bus reservation.
    pub closed spec fn holds_reservation(&self) -> bool {
        match self.state {
            ReservationState::Degraded => false,
        }
    }

    /// Validate `hw_device` and hand out a degraded guard; the error of
    /// `parse_card_index` when the device string names no card.
    pub fn acquire(hw_device: &str, _app_device_name: &str, cards: &Vec<CardEntry>) -> (r: Result<Self, ReservationError>)
        ensures
            match r {
                Ok(g) => !g.holds_reservation() && card_ref_of(hw_device@) is Some
                    && exists|v: u32| card_index_result(hw_device@, cards@, Ok(v)),
                Err(e) => card_index_result(hw_device@, cards@, Err(e)),
            },
    {
        match parse_card_index(hw_device, cards) {
            Ok(_card) => Ok(DeviceReservation { state: ReservationState::Degraded }),
            Err(e) => Err(e),
        }
    }

    /// Whether this guard currently holds an active reservation (never, for
    /// the degraded guard).
    pub fn is_active(&self) -> (r: bool)
        ensures
            r == self.holds_reservation(),
            !r,
    {
        match self.state {
            ReservationState::Degraded => false,
        }
    }
}


/// The card enumeration read from `/proc/asound/cards`: the cards whose
/// number reads as an `i32`, in order, as (index, name).
pub open spec fn proc_card_entries(cards: Seq<ProcCardInfo>) -> Seq<(i32, Seq<char>)>
    decreases cards.len(),
{
    if cards.len() == 0 {
        Seq::empty()
    } else {
        let prev = proc_card_entries(cards.drop_last());
        match parse_i32(cards.last().number@) {
            Some(i) => prev.push((i, cards.last().short_name@)),
            None => prev,
        }
    }
}

/// The card enumeration that resolves `CARD=<name>` device strings, from
/// the cards `/proc/asound/cards` lists: each card whose number reads as an
/// index, with its short name.
pub fn card_entries_from_proc(cards: &Vec<ProcCardInfo>) -> (r: Vec<CardEntry>)
    ensures
        r@.len() == proc_card_entries(cards@).len(),
        forall|k: int| 0 <= k < r@.len() ==> (#[trigger] r@[k] matches CardEntry::Card { index, name }
            && (index, name@) == proc_card_entries(cards@)[k]),
{
    let mut out: Vec<CardEntry> = Vec::new();
    let mut i: usize = 0;
    while i < cards.len()
        invariant
            0 <= i <= cards@.len(),
            out@.len() == proc_card_entries(cards@.subrange(0, i as int)).len(),
            forall|k: int| 0 <= k < out@.len() ==> (#[trigger] out@[k] matches CardEntry::Card { index, name }
                && (index, name@) == proc_card_entries(cards@.subrange(0, i as int))[k]),
        decreases cards@.len() - i,
    {
        let ghost before = cards@.subrange(0, i as int);
        let v = to_chars(cards[i].number.as_str());
        let parsed = parse_i32_in(&v, 0, v.len());
        assert(v@.subrange(0, v@.len() as int) =~= v@);
        assert(cards@.subrange(0, i + 1).drop_last() =~= before);
        match parsed {
            Some(index) => {
                let name = cards[i].short_name.clone();
                out.push(CardEntry::Card { index, name });
            },
            None => {},
        }
        i += 1;
    }
    assert(cards@.subrange(0, cards@.len() as int) =~= cards@);
    out
}

} // verus!
