//! Failures of the transport that every driver shares.

use vstd::prelude::*;

verus! {

/// The device is busy; the request may be repeated later.
pub const HIDPP20_ERR_BUSY: u8 = 0x08;

/// What can go wrong between a driver and its device.
#[derive(Debug)]
pub enum DriverError {
    Io { device: String, source: String },
    IoctlFailed(String),
    Timeout { attempts: u8 },
    ChecksumMismatch { computed: u16, received: u16 },
    ProtocolError { sub_id: u8, error: u8 },
    BufferTooSmall { expected: usize, actual: usize },
    Hidpp20Error { error_name: &'static str, error_code: u8, feature_index: u8, function: u8 },
    Hidpp20ProbeFailure { indices: Vec<u8> },
    /// A device is paired but asleep or powered off.
    DeviceAsleep,
}

} // verus!
