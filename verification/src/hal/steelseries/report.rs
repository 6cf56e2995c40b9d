//! Reports, and the versions of the protocol.
//!
//! A report that is written holds its number, which is zero, and then the
//! parameters. A feature report holds the parameters only. Parameter 0 is the
//! opcode.

use crate::bytes;
use crate::engine::device::LedMode;
use crate::engine::device_database::{DriverConfig, DriverConfigModel};
use crate::text;
use vstd::prelude::*;
use vstd::string::*;

verus! {

pub const STEELSERIES_REPORT_SIZE_SHORT: usize = 32;

pub const STEELSERIES_REPORT_SIZE: usize = 64;

pub const STEELSERIES_REPORT_LONG_SIZE: usize = 262;

/// How long a device needs before each command, in milliseconds.
pub const SETTLE_MS: u64 = 10;

/// How long a device needs before a save, in milliseconds.
pub const SETTLE_SAVE_MS: u64 = 20;

/// A version of the protocol.
#[derive(Debug, Clone, Copy, PartialEq, Eq, Structural)]
pub enum ProtocolVersion {
    V1,
    V2,
    V3,
    V4,
}

/// Why a device cannot be loaded or written.
#[derive(Debug, Clone, Copy, PartialEq, Eq, Structural)]
pub enum SteelseriesError {
    VersionMissing,
    UnsupportedVersion { version: u32 },
    NotLoaded,
    NoProfiles,
    UnsupportedLedMode { mode: LedMode },
    NoLedProtocol,
}

impl ProtocolVersion {
    /// The version with a number.
    pub open spec fn numbered(value: u32) -> Option<ProtocolVersion> {
        match value {
            1 => Some(ProtocolVersion::V1),
            2 => Some(ProtocolVersion::V2),
            3 => Some(ProtocolVersion::V3),
            4 => Some(ProtocolVersion::V4),
            _ => None,
        }
    }

    /// The version with a number; only 1 to 4 are known.
    pub fn try_from(value: u32) -> (r: Result<ProtocolVersion, SteelseriesError>)
        ensures
            match r {
                Ok(v) => ProtocolVersion::numbered(value) == Some(v),
                Err(e) => ProtocolVersion::numbered(value) is None && e
                    == SteelseriesError::UnsupportedVersion { version: value },
            },
    {
        match value {
            1 => Ok(ProtocolVersion::V1),
            2 => Ok(ProtocolVersion::V2),
            3 => Ok(ProtocolVersion::V3),
            4 => Ok(ProtocolVersion::V4),
            _ => Err(SteelseriesError::UnsupportedVersion { version: value }),
        }
    }
}

/// The name of a mode in messages.
pub open spec fn mode_name(mode: LedMode) -> Seq<char> {
    match mode {
        LedMode::Off => "Off"@,
        LedMode::Solid => "Solid"@,
        LedMode::Cycle => "Cycle"@,
        LedMode::ColorWave => "ColorWave"@,
        LedMode::Starlight => "Starlight"@,
        LedMode::Breathing => "Breathing"@,
        LedMode::TriColor => "TriColor"@,
    }
}

impl SteelseriesError {
    /// The error in words.
    pub open spec fn text(self) -> Seq<char> {
        match self {
            SteelseriesError::VersionMissing =>
                "SteelSeries: DeviceVersion missing from device database entry"@,
            SteelseriesError::UnsupportedVersion { version } =>
                "SteelSeries: unsupported DeviceVersion "@ + text::decimal(version as nat)
                    + " (expected 1-4)"@,
            SteelseriesError::NotLoaded =>
                "SteelSeries: driver used before load_profiles initialized the protocol version"@,
            SteelseriesError::NoProfiles =>
                "No profiles found in DeviceInfo (SteelSeries hardware requires at least 1)"@,
            SteelseriesError::UnsupportedLedMode { mode } =>
                "SteelSeries V1: unsupported LED mode "@ + mode_name(mode),
            SteelseriesError::NoLedProtocol => "SteelSeries V4 has no LED protocol"@,
        }
    }

    /// The error in words.
    pub fn message(&self) -> (r: String)
        ensures
            r@ == self.text(),
    {
        match *self {
            SteelseriesError::VersionMissing => {
                "SteelSeries: DeviceVersion missing from device database entry".to_owned()
            },
            SteelseriesError::UnsupportedVersion { version } => {
                let mut s: String = "SteelSeries: unsupported DeviceVersion ".to_owned();
                text::push_decimal(&mut s, version as u64);
                s.append(" (expected 1-4)");
                s
            },
            SteelseriesError::NotLoaded => {
                "SteelSeries: driver used before load_profiles initialized the protocol version"
                    .to_owned()
            },
            SteelseriesError::NoProfiles => {
                "No profiles found in DeviceInfo (SteelSeries hardware requires at least 1)"
                    .to_owned()
            },
            SteelseriesError::UnsupportedLedMode { mode } => {
                let mut s: String = "SteelSeries V1: unsupported LED mode ".to_owned();
                let name = match mode {
                    LedMode::Off => "Off",
                    LedMode::Solid => "Solid",
                    LedMode::Cycle => "Cycle",
                    LedMode::ColorWave => "ColorWave",
                    LedMode::Starlight => "Starlight",
                    LedMode::Breathing => "Breathing",
                    LedMode::TriColor => "TriColor",
                };
                s.append(name);
                s
            },
            SteelseriesError::NoLedProtocol => "SteelSeries V4 has no LED protocol".to_owned(),
        }
    }
}

/// How a device deviates from the protocol.
#[derive(Debug, Clone, Copy, PartialEq, Eq, Structural)]
pub struct DeviceQuirks {
    /// LEDs have an intensity and no color, buttons take three bytes each and
    /// there are no macros.
    pub is_senseiraw: bool,
    /// The color of the LED has another opcode, and its number is zero.
    pub is_rival100: bool,
}

impl Default for DeviceQuirks {
    fn default() -> (r: Self)
        ensures
            !r.is_senseiraw,
            !r.is_rival100,
    {
        DeviceQuirks { is_senseiraw: false, is_rival100: false }
    }
}

impl DeviceQuirks {
    /// The quirks that an entry of the database names.
    pub open spec fn of(config: DriverConfigModel) -> DeviceQuirks {
        DeviceQuirks {
            is_senseiraw: config.quirks.contains("STEELSERIES_QUIRK_SENSEIRAW"@),
            is_rival100: config.quirks.contains("STEELSERIES_QUIRK_RIVAL100"@),
        }
    }

    /// The quirks that an entry of the database names. Other names are ignored.
    pub fn from_config(config: &DriverConfig) -> (r: Self)
        ensures
            r == DeviceQuirks::of(config@),
    {
        DeviceQuirks {
            is_senseiraw: text::list_has(&config.quirks, "STEELSERIES_QUIRK_SENSEIRAW"),
            is_rival100: text::list_has(&config.quirks, "STEELSERIES_QUIRK_RIVAL100"),
        }
    }
}

/// A report under construction.
#[derive(Debug)]
pub struct Report {
    pub buf: Vec<u8>,
    /// Whether it is a feature report.
    pub feature: bool,
    pub opcode: u8,
}

/// The contents of a [`Report`].
#[verifier::ext_equal]
pub struct ReportModel {
    pub bytes: Seq<u8>,
    pub feature: bool,
    pub opcode: u8,
}

impl View for Report {
    type V = ReportModel;

    open spec fn view(&self) -> ReportModel {
        ReportModel { bytes: self.buf@, feature: self.feature, opcode: self.opcode }
    }
}

impl ReportModel {
    /// A report that is written, with an opcode only.
    pub open spec fn output(opcode: u8, len: nat) -> ReportModel {
        ReportModel { bytes: bytes::filled(len, 0).update(1, opcode), feature: false, opcode }
    }

    /// A feature report with an opcode only.
    pub open spec fn feature(opcode: u8, len: nat) -> ReportModel {
        ReportModel { bytes: bytes::filled(len, 0).update(0, opcode), feature: true, opcode }
    }

    /// Where parameter 0 stands.
    pub open spec fn base(self) -> int {
        if self.feature {
            0
        } else {
            1
        }
    }

    /// With a parameter, if the report has room for it.
    pub open spec fn with(self, i: int, value: u8) -> ReportModel {
        if self.base() + i < self.bytes.len() {
            ReportModel { bytes: self.bytes.update(self.base() + i, value), ..self }
        } else {
            self
        }
    }

    /// With two parameters that hold a number, the low byte first, if the
    /// report has room for both.
    pub open spec fn with_u16(self, i: int, value: u16) -> ReportModel {
        if self.base() + i + 1 < self.bytes.len() {
            ReportModel {
                bytes: self.bytes.update(self.base() + i, bytes::lo8(value)).update(
                    self.base() + i + 1,
                    bytes::hi8(value),
                ),
                ..self
            }
        } else {
            self
        }
    }
}

impl Report {
    /// A report that is written.
    pub fn output(opcode: u8, len: usize) -> (r: Self)
        requires
            len > 1,
        ensures
            r@ == ReportModel::output(opcode, len as nat),
    {
        let mut buf: Vec<u8> = bytes::fill(len, 0);
        buf[1] = opcode;
        Report { buf, feature: false, opcode }
    }

    /// A feature report, whose number is the opcode.
    pub fn feature(opcode: u8, len: usize) -> (r: Self)
        requires
            len > 0,
        ensures
            r@ == ReportModel::feature(opcode, len as nat),
    {
        let mut buf: Vec<u8> = bytes::fill(len, 0);
        buf[0] = opcode;
        Report { buf, feature: true, opcode }
    }

    /// Sets a parameter; one beyond the end is dropped.
    pub fn param(&mut self, i: usize, value: u8)
        requires
            i < usize::MAX,
        ensures
            final(self)@ == old(self)@.with(i as int, value),
    {
        let base: usize = if self.feature {
            0
        } else {
            1
        };
        if base + i < self.buf.len() {
            self.buf[base + i] = value;
        }
    }

    /// Sets two parameters to a number, the low byte first; nothing is set if
    /// one of them lies beyond the end.
    pub fn param_u16_le(&mut self, i: usize, value: u16)
        requires
            i < usize::MAX - 1,
        ensures
            final(self)@ == old(self)@.with_u16(i as int, value),
    {
        let base: usize = if self.feature {
            0
        } else {
            1
        };
        if base + i + 1 < self.buf.len() {
            self.buf[base + i] = bytes::low_byte(value);
            self.buf[base + i + 1] = bytes::high_byte(value);
        }
    }
}

/// A command: what is sent, and how long to wait before.
#[derive(Debug)]
pub struct SteelseriesCommand {
    pub feature: bool,
    pub bytes: Vec<u8>,
    pub opcode: u8,
    pub settle_ms: u64,
}

/// The contents of a [`SteelseriesCommand`].
#[verifier::ext_equal]
pub struct CommandModel {
    pub feature: bool,
    pub bytes: Seq<u8>,
    pub opcode: u8,
    pub settle_ms: u64,
}

impl View for SteelseriesCommand {
    type V = CommandModel;

    open spec fn view(&self) -> CommandModel {
        CommandModel {
            feature: self.feature,
            bytes: self.bytes@,
            opcode: self.opcode,
            settle_ms: self.settle_ms,
        }
    }
}

impl ReportModel {
    /// The command that sends this report.
    pub open spec fn command(self) -> CommandModel {
        CommandModel {
            feature: self.feature,
            bytes: self.bytes,
            opcode: self.opcode,
            settle_ms: SETTLE_MS,
        }
    }
}

impl Report {
    /// The command that sends this report.
    pub fn into_command(self) -> (r: SteelseriesCommand)
        ensures
            r@ == self@.command(),
    {
        SteelseriesCommand {
            feature: self.feature,
            bytes: self.buf,
            opcode: self.opcode,
            settle_ms: SETTLE_MS,
        }
    }
}

/// Setting one parameter changes no other.
pub proof fn parameters_are_independent(m: ReportModel, i: int, j: int, value: u8)
    requires
        0 <= i,
        0 <= j,
        i != j,
        m.base() + i < m.bytes.len(),
        m.base() + j < m.bytes.len(),
    ensures
        m.with(i, value).bytes[m.base() + i] == value,
        m.with(i, value).bytes[m.base() + j] == m.bytes[m.base() + j],
{
}

} // verus!
