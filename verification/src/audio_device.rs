//! The output devices that the audio backends report.

use vstd::prelude::*;

verus! {

/// An output device as a backend reports it.
#[derive(Debug, Clone)]
pub struct AudioDevice {
    /// The id used to open the device.
    pub id: String,
    /// The name shown for the device.
    pub name: String,
    /// A longer description, when the backend has one.
    pub description: Option<String>,
    /// Whether it is the system's default device.
    pub is_default: bool,
    /// The highest sample rate known or assumed for the device.
    pub max_sample_rate: Option<u32>,
    /// The sample rates known to be supported, when known.
    pub supported_sample_rates: Option<Vec<u32>>,
    /// The bus the device sits on (such as "usb" or "pci"), when known.
    pub device_bus: Option<String>,
    /// Whether the device is hardware (not a software mixer or sink).
    pub is_hardware: bool,
}

/// The abstract value of a reported device.
pub struct DeviceSpec {
    pub id: Seq<char>,
    pub name: Seq<char>,
    pub description: Option<Seq<char>>,
    pub is_default: bool,
    pub max_sample_rate: Option<u32>,
    pub supported_sample_rates: Option<Seq<u32>>,
    pub device_bus: Option<Seq<char>>,
    pub is_hardware: bool,
}

/// The view of an optional string.
pub open spec fn opt_text(s: Option<String>) -> Option<Seq<char>> {
    match s {
        Some(t) => Some(t@),
        None => None,
    }
}

/// The view of a reported device.
pub open spec fn device_view(d: AudioDevice) -> DeviceSpec {
    DeviceSpec {
        id: d.id@,
        name: d.name@,
        description: opt_text(d.description),
        is_default: d.is_default,
        max_sample_rate: d.max_sample_rate,
        supported_sample_rates: match d.supported_sample_rates {
            Some(v) => Some(v@),
            None => None,
        },
        device_bus: opt_text(d.device_bus),
        is_hardware: d.is_hardware,
    }
}

} // verus!
