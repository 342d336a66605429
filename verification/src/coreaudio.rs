//! The decisions of CoreAudio device access: resolving the output device,
//! taking and releasing Hog Mode, naming transport types; and the answers
//! of the sample-rate queries where CoreAudio is absent.
//!
//! The CoreAudio calls themselves are made by the caller, which hands their
//! results in.

use vstd::prelude::*;
use crate::text::{decimal, push_decimal, push_signed_decimal, signed_decimal};

verus! {

/// The message of every CoreAudio query where CoreAudio is absent.
pub open spec fn unavailable_message() -> Seq<char> {
    "CoreAudio is only available on macOS"@
}

/// Supported sample rates of a device: none where CoreAudio is absent.
pub fn query_supported_sample_rates(_device_name: &str) -> (r: Result<Vec<u32>, String>)
    ensures
        r matches Ok(v) && v@.len() == 0,
{
    Ok(Vec::new())
}

/// The nominal sample rate of a device: an error where CoreAudio is absent.
pub fn get_nominal_sample_rate_by_name(_device_name: &str) -> (r: Result<u32, String>)
    ensures
        r matches Err(e) && e@ == unavailable_message(),
{
    Err(String::from_str("CoreAudio is only available on macOS"))
}

/// Set the nominal sample rate of a device: an error where CoreAudio is
/// absent.
pub fn set_nominal_sample_rate_by_name(_device_name: &str, _target_rate: u32) -> (r: Result<(), String>)
    ensures
        r matches Err(e) && e@ == unavailable_message(),
{
    Err(String::from_str("CoreAudio is only available on macOS"))
}

/// Placeholder for the exclusive-access guard where CoreAudio is absent.
#[derive(Debug)]
pub struct CoreAudioExclusiveGuard;

/// The device id chosen for an optional device name, given the outcome of
/// looking the name up (`by_name`) and of asking for the default output
/// device (`default_device`); only the one that the name calls for is used.
pub open spec fn resolved_device(
    device_name: Option<Seq<char>>,
    by_name: Result<Option<u32>, Seq<char>>,
    default_device: Result<u32, Seq<char>>,
) -> Result<u32, Seq<char>> {
    match device_name {
        Some(name) => match by_name {
            Err(e) => Err(e),
            Ok(Some(id)) => Ok(id),
            Ok(None) => Err("CoreAudio output device '"@ + name + "' not found"@),
        },
        None => default_device,
    }
}

/// A `Result` of strings by the views of the strings.
pub open spec fn result_view<T>(r: Result<T, String>) -> Result<T, Seq<char>> {
    match r {
        Ok(v) => Ok(v),
        Err(e) => Err(e@),
    }
}

/// Resolve an optional output device name to a device id: the device of
/// that name (`by_name` is the outcome of that lookup), or the default
/// output device when no name is given (`default_device`).
pub fn resolve_output_device_id(
    device_name: Option<&str>,
    by_name: Result<Option<u32>, String>,
    default_device: Result<u32, String>,
) -> (r: Result<u32, String>)
    ensures
        result_view(r) == resolved_device(
            match device_name { Some(n) => Some(n@), None => None },
            match by_name { Ok(o) => Ok(o), Err(e) => Err(e@) },
            result_view(default_device),
        ),
{
    match device_name {
        Some(name) => match by_name {
            Err(e) => Err(e),
            Ok(Some(id)) => Ok(id),
            Ok(None) => {
                let mut m = String::from_str("CoreAudio output device '");
                m.append(name);
                m.append("' not found");
                Err(m)
            },
        },
        None => default_device,
    }
}

/// The name of the resolved output device: the error of the resolution, or
/// else the outcome of asking the device for its name.
pub fn resolve_output_device_name(device_id: Result<u32, String>, name_of_device: Result<String, String>) -> (r: Result<String, String>)
    ensures
        match device_id {
            Err(e) => r matches Err(x) && x@ == e@,
            Ok(_) => r == name_of_device,
        },
{
    match device_id {
        Err(e) => Err(e),
        Ok(_) => name_of_device,
    }
}

/// What to do about Hog Mode, given the pid that owns it now.
#[derive(Debug, PartialEq, Eq, Structural)]
pub enum HogStep {
    /// Nothing to do: the wanted state already holds, or the mode is held by
    /// another process and release was asked.
    Nothing,
    /// Toggle Hog Mode, then check the new owner.
    Toggle,
    /// Another process owns the device (its pid).
    Busy(i32),
}

/// The Hog Mode step: to enable, toggle unless we own it already or another
/// process does (pids other than -1 and 0); to disable, toggle only if we
/// own it.
pub open spec fn hog_step(enabled: bool, current_pid: i32, our_pid: i32) -> HogStep {
    if enabled {
        if current_pid == our_pid {
            HogStep::Nothing
        } else if current_pid != -1 && current_pid != 0 {
            HogStep::Busy(current_pid)
        } else {
            HogStep::Toggle
        }
    } else if current_pid == our_pid {
        HogStep::Toggle
    } else {
        HogStep::Nothing
    }
}

/// Decide the Hog Mode step for `enabled`, given the current owner's pid.
pub fn decide_hog_step(enabled: bool, current_pid: i32, our_pid: i32) -> (r: HogStep)
    ensures
        r == hog_step(enabled, current_pid, our_pid),
{
    if enabled {
        if current_pid == our_pid {
            HogStep::Nothing
        } else if current_pid != -1 && current_pid != 0 {
            HogStep::Busy(current_pid)
        } else {
            HogStep::Toggle
        }
    } else if current_pid == our_pid {
        HogStep::Toggle
    } else {
        HogStep::Nothing
    }
}

/// The error for a device that another process hogs.
pub fn hog_busy_message(device_id: u32, owner_pid: i32) -> (r: String)
    ensures
        r@ == "CoreAudio device "@ + decimal(device_id as nat) + " is already hogged by pid "@
            + signed_decimal(owner_pid as int),
{
    let mut m = String::from_str("CoreAudio device ");
    push_decimal(&mut m, device_id);
    m.append(" is already hogged by pid ");
    push_signed_decimal(&mut m, owner_pid);
    m
}

/// Whether enabling Hog Mode took effect: `Ok` when the new owner is us,
/// the error naming the device and the owner otherwise.
pub fn check_hog_acquired(device_id: u32, new_pid: i32, our_pid: i32) -> (r: Result<(), String>)
    ensures
        new_pid == our_pid ==> r is Ok,
        new_pid != our_pid ==> (r matches Err(e) && e@ == "CoreAudio Hog Mode was not acquired for device "@
            + decimal(device_id as nat) + " (owner pid: "@ + signed_decimal(new_pid as int) + ")"@),
{
    if new_pid == our_pid {
        Ok(())
    } else {
        let mut m = String::from_str("CoreAudio Hog Mode was not acquired for device ");
        push_decimal(&mut m, device_id);
        m.append(" (owner pid: ");
        push_signed_decimal(&mut m, new_pid);
        m.append(")");
        Err(m)
    }
}

/// The name of a CoreAudio transport type (a FourCC code).
pub open spec fn transport_label(t: u32) -> &'static str {
    if t == 0x626c746e {
        "built-in"
    } else if t == 0x75736220 {
        "usb"
    } else if t == 0x626c7565 || t == 0x626c6561 {
        "bluetooth"
    } else if t == 0x68646d69 || t == 0x64707274 {
        "hdmi"
    } else if t == 0x7468756e {
        "thunderbolt"
    } else if t == 0x31333934 {
        "firewire"
    } else if t == 0x76697274 {
        "virtual"
    } else if t == 0x67727570 {
        "aggregate"
    } else {
        "unknown"
    }
}

/// Name a transport type: built-in, usb, bluetooth (classic and LE), hdmi
/// (also DisplayPort), thunderbolt, firewire, virtual, aggregate or unknown.
pub fn transport_type_label(transport: u32) -> (r: String)
    ensures
        r@ == transport_label(transport)@,
{
    let label = if transport == 0x626c746e {
        "built-in"
    } else if transport == 0x75736220 {
        "usb"
    } else if transport == 0x626c7565 || transport == 0x626c6561 {
        "bluetooth"
    } else if transport == 0x68646d69 || transport == 0x64707274 {
        "hdmi"
    } else if transport == 0x7468756e {
        "thunderbolt"
    } else if transport == 0x31333934 {
        "firewire"
    } else if transport == 0x76697274 {
        "virtual"
    } else if transport == 0x67727570 {
        "aggregate"
    } else {
        "unknown"
    };
    String::from_str(label)
}

} // verus!
