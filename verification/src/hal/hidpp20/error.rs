//! Failures of the HID++ 2.0 driver.

use crate::hal::error::{DriverError, HIDPP20_ERR_BUSY};
use vstd::prelude::*;

verus! {

/// What can go wrong with a HID++ 2.0 device, in the classes that call for
/// different ways of recovery.
#[derive(Debug)]
pub enum HidppDriverError {
    /// The device did not answer within the retry budget.
    DeviceTimeout,
    /// The device answered with an error report.
    ProtocolError { code: u8, feature: u8, function: u8 },
    /// The checksum of a sector does not match its contents.
    CrcMismatch { sector: u16, expected: u16, received: u16 },
    /// The device does not have the feature page that is needed.
    UnsupportedFeature(u16),
    /// A buffer is shorter than its layout.
    BufferUnderflow { expected: usize, received: usize },
    /// The transport failed.
    Transport(DriverError),
    /// No device answered at any of these indices.
    ProbeFailed(Vec<u8>),
}

impl From<DriverError> for HidppDriverError {
    fn from(e: DriverError) -> (r: Self) {
        match e {
            DriverError::Timeout { .. } => HidppDriverError::DeviceTimeout,
            other => HidppDriverError::Transport(other),
        }
    }
}

impl vstd::std_specs::convert::FromSpecImpl<DriverError> for HidppDriverError {
    open spec fn obeys_from_spec() -> bool {
        true
    }

    open spec fn from_spec(e: DriverError) -> Self {
        match e {
            DriverError::Timeout { .. } => HidppDriverError::DeviceTimeout,
            other => HidppDriverError::Transport(other),
        }
    }
}

impl HidppDriverError {
    /// Whether the same request may succeed if it is repeated.
    pub open spec fn transient(self) -> bool {
        match self {
            HidppDriverError::DeviceTimeout => true,
            HidppDriverError::ProtocolError { code, .. } => code == HIDPP20_ERR_BUSY,
            HidppDriverError::Transport(DriverError::Timeout { .. }) => true,
            HidppDriverError::Transport(DriverError::Hidpp20Error { error_code, .. }) => error_code
                == HIDPP20_ERR_BUSY,
            _ => false,
        }
    }

    pub fn is_transient(&self) -> (r: bool)
        ensures
            r == self.transient(),
    {
        match self {
            HidppDriverError::DeviceTimeout => true,
            HidppDriverError::ProtocolError { code, .. } => *code == HIDPP20_ERR_BUSY,
            HidppDriverError::Transport(DriverError::Timeout { .. }) => true,
            HidppDriverError::Transport(DriverError::Hidpp20Error { error_code, .. }) => *error_code
                == HIDPP20_ERR_BUSY,
            _ => false,
        }
    }
}

/// A timeout of the transport is a timeout of the device, and so transient.
pub proof fn transport_timeout_is_transient(attempts: u8)
    ensures
        <HidppDriverError as vstd::std_specs::convert::FromSpec<DriverError>>::from_spec(
            DriverError::Timeout { attempts },
        ) == HidppDriverError::DeviceTimeout,
        HidppDriverError::DeviceTimeout.transient(),
{
}

} // verus!
