//! Value types shared by the adapter driver and the diagnostic front end.
use vstd::prelude::*;
use vstd::string::StringExecFns;

verus! {

/// An error reported by a communication server: a numeric code and a text.
#[derive(Debug)]
pub struct ComServerError {
    pub err_code: u32,
    pub err_desc: String,
}

/// Builds an error from a code and a static text.
pub fn error(code: u32, description: &str) -> (e: ComServerError)
    ensures
        e.err_code == code,
        e.err_desc@ == description@,
{
    ComServerError { err_code: code, err_desc: String::from_str(description) }
}

/// A receive filter of the CAN channel, or the addressing of an ISO-TP channel.
#[derive(Clone, Copy, Debug, PartialEq, Eq, Structural)]
pub enum FilterType {
    Pass { id: u32, mask: u32 },
    Block { id: u32, mask: u32 },
    IsoTP { id: u32, mask: u32, fc: u32 },
}

/// One ISO-TP (ISO 15765-2) payload with its CAN identifier.
#[derive(Clone, Debug)]
pub struct ISO15765Data {
    pub id: u32,
    pub data: Vec<u8>,
    pub pad_frame: bool,
    pub ext_addressing: bool,
}

/// Whether an adapter offers a feature.
#[derive(Clone, Copy, Debug, PartialEq, Eq, Structural)]
pub enum Capability {
    Yes,
    No,
    NA,
}

/// What an adapter reports about itself.
#[derive(Clone, Debug)]
pub struct DeviceCapabilities {
    pub name: String,
    pub vendor: String,
    pub library_path: String,
    pub device_fw_version: String,
    pub library_version: String,
    pub j1850vpw: Capability,
    pub j1850pwm: Capability,
    pub can: Capability,
    pub iso15765: Capability,
    pub iso9141: Capability,
    pub iso14230: Capability,
    pub ip: Capability,
    pub battery_voltage: Capability,
}

impl DeviceCapabilities {
    /// Whether ISO-TP over CAN is offered.
    pub fn supports_iso15765(&self) -> (r: Capability)
        ensures
            r == self.iso15765,
    {
        self.iso15765
    }
}

/// The ISO-TP settings of a manually configured diagnostic session.
#[derive(Clone, Copy, Debug, PartialEq, Eq, Structural)]
pub struct ISO15765Config {
    pub baud: u32,
    pub send_id: u32,
    pub recv_id: u32,
    pub block_size: u32,
    pub sep_time: u32,
    pub use_ext_isotp: bool,
    pub use_ext_can: bool,
}

} // verus!
