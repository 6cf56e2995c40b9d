//! Commands, sensors, and what a device says of itself.

use crate::engine::device_database::SinowealthLedType;
use crate::text;
use vstd::prelude::*;

verus! {

/// The reports of a device.
#[derive(Debug, Clone, Copy, PartialEq, Eq, Structural)]
pub enum ReportId {
    Config,
    Cmd,
    ConfigLong,
}

impl ReportId {
    /// The number of the report.
    pub open spec fn code(self) -> u8 {
        match self {
            ReportId::Config => 0x04,
            ReportId::Cmd => 0x05,
            ReportId::ConfigLong => 0x06,
        }
    }

    pub fn to_byte(self) -> (r: u8)
        ensures
            r == self.code(),
    {
        match self {
            ReportId::Config => 0x04,
            ReportId::Cmd => 0x05,
            ReportId::ConfigLong => 0x06,
        }
    }
}

/// The commands that a device takes.
#[derive(Debug, Clone, Copy, PartialEq, Eq, Structural)]
pub enum CommandId {
    FirmwareVersion,
    Profile,
    GetConfig,
    GetButtons,
    Debounce,
    LongAngleSnappingAndLod,
    GetConfig2,
    GetButtons2,
    Macro,
    GetConfig3,
    GetButtons3,
    Dfu,
}

impl CommandId {
    /// The number of the command.
    pub open spec fn code(self) -> u8 {
        match self {
            CommandId::FirmwareVersion => 0x01,
            CommandId::Profile => 0x02,
            CommandId::GetConfig => 0x11,
            CommandId::GetButtons => 0x12,
            CommandId::Debounce => 0x1a,
            CommandId::LongAngleSnappingAndLod => 0x1b,
            CommandId::GetConfig2 => 0x21,
            CommandId::GetButtons2 => 0x22,
            CommandId::Macro => 0x30,
            CommandId::GetConfig3 => 0x31,
            CommandId::GetButtons3 => 0x32,
            CommandId::Dfu => 0x75,
        }
    }

    pub fn to_byte(self) -> (r: u8)
        ensures
            r == self.code(),
    {
        match self {
            CommandId::FirmwareVersion => 0x01,
            CommandId::Profile => 0x02,
            CommandId::GetConfig => 0x11,
            CommandId::GetButtons => 0x12,
            CommandId::Debounce => 0x1a,
            CommandId::LongAngleSnappingAndLod => 0x1b,
            CommandId::GetConfig2 => 0x21,
            CommandId::GetButtons2 => 0x22,
            CommandId::Macro => 0x30,
            CommandId::GetConfig3 => 0x31,
            CommandId::GetButtons3 => 0x32,
            CommandId::Dfu => 0x75,
        }
    }
}

pub const SINOWEALTH_CMD_SIZE: usize = 6;

pub const SINOWEALTH_CONFIG_REPORT_SIZE: usize = 520;

pub const SINOWEALTH_CONFIG_SIZE_MAX: usize = 167;

pub const SINOWEALTH_CONFIG_SIZE_MIN: usize = 123;

pub const SINOWEALTH_BUTTON_SIZE: usize = 88;

pub const SINOWEALTH_BUTTON_REPORT_SIZE: usize = 520;

pub const SINOWEALTH_MACRO_SIZE: usize = 515;

pub const SINOWEALTH_DPI_MIN: u32 = 100;

pub const SINOWEALTH_DPI_STEP: u32 = 100;

pub const SINOWEALTH_NUM_DPIS: usize = 8;

pub const SINOWEALTH_NUM_PROFILES_MAX: usize = 3;

pub const SINOWEALTH_NUM_BUTTONS: usize = 20;

pub const SINOWEALTH_MACRO_LENGTH_MAX: usize = 168;

pub const SINOWEALTH_MACRO_EVENT_SIZE: usize = 3;

/// The axes have resolutions of their own.
pub const SINOWEALTH_XY_INDEPENDENT: u8 = 0b0000_1000;

/// The bytes of a command with two parameters.
pub open spec fn command(code: u8, a: u8, b: u8) -> Seq<u8> {
    seq![ReportId::Cmd.code(), code, a, b, 0u8, 0u8]
}

/// A command without parameters.
pub fn build_cmd(cmd_id: CommandId) -> (r: [u8; 6])
    ensures
        r@ == command(cmd_id.code(), 0, 0),
{
    build_cmd_with(cmd_id, 0, 0)
}

/// A command with two parameters.
pub fn build_cmd_with(cmd_id: CommandId, a: u8, b: u8) -> (r: [u8; 6])
    ensures
        r@ == command(cmd_id.code(), a, b),
{
    let r: [u8; 6] = [ReportId::Cmd.to_byte(), cmd_id.to_byte(), a, b, 0, 0];
    assert(r@ =~= command(cmd_id.code(), a, b));
    r
}

/// Why a device cannot be driven.
#[derive(Debug, Clone, Copy, PartialEq, Eq, Structural)]
pub enum SinowealthError {
    NotProbed,
    /// The answer is to another command.
    CommandMismatch { expected: u8, received: u8 },
    InvalidProfile { index: usize },
    /// A report could not be read.
    ReadFailed,
    /// A report could not be sent.
    WriteFailed,
}

/// Refuses an answer to another command.
pub fn check_echo(cmd: &[u8; 6], resp: &[u8; 6]) -> (r: Result<(), SinowealthError>)
    ensures
        r == if resp[1] == cmd[1] {
            Ok::<(), SinowealthError>(())
        } else {
            Err(SinowealthError::CommandMismatch { expected: cmd[1], received: resp[1] })
        },
{
    if resp[1] != cmd[1] {
        return Err(SinowealthError::CommandMismatch { expected: cmd[1], received: resp[1] });
    }
    Ok(())
}

/// The command for the settings of a profile.
pub fn config_cmd(profile_idx: usize) -> (r: Result<CommandId, SinowealthError>)
    ensures
        r == match profile_idx {
            0 => Ok(CommandId::GetConfig),
            1 => Ok(CommandId::GetConfig2),
            2 => Ok(CommandId::GetConfig3),
            _ => Err(SinowealthError::InvalidProfile { index: profile_idx }),
        },
{
    match profile_idx {
        0 => Ok(CommandId::GetConfig),
        1 => Ok(CommandId::GetConfig2),
        2 => Ok(CommandId::GetConfig3),
        _ => Err(SinowealthError::InvalidProfile { index: profile_idx }),
    }
}

/// The command for the buttons of a profile.
pub fn buttons_cmd(profile_idx: usize) -> (r: Result<CommandId, SinowealthError>)
    ensures
        r == match profile_idx {
            0 => Ok(CommandId::GetButtons),
            1 => Ok(CommandId::GetButtons2),
            2 => Ok(CommandId::GetButtons3),
            _ => Err(SinowealthError::InvalidProfile { index: profile_idx }),
        },
{
    match profile_idx {
        0 => Ok(CommandId::GetButtons),
        1 => Ok(CommandId::GetButtons2),
        2 => Ok(CommandId::GetButtons3),
        _ => Err(SinowealthError::InvalidProfile { index: profile_idx }),
    }
}

/// The sensors that devices have.
#[derive(Debug, Clone, Copy, PartialEq, Eq, Structural)]
pub enum Sensor {
    Pmw3360,
    Pmw3212,
    Pmw3327,
    Pmw3389,
}

/// The sensor with a name in capital letters.
pub open spec fn sensor_named(upper: Seq<char>) -> Option<Sensor> {
    if upper == "PMW3360"@ {
        Some(Sensor::Pmw3360)
    } else if upper == "PMW3212"@ {
        Some(Sensor::Pmw3212)
    } else if upper == "PMW3327"@ {
        Some(Sensor::Pmw3327)
    } else if upper == "PMW3389"@ {
        Some(Sensor::Pmw3389)
    } else {
        None
    }
}

/// The sensor with a name in capital letters.
pub fn sensor_from_upper(upper: &str) -> (r: Option<Sensor>)
    ensures
        r == sensor_named(upper@),
{
    if text::str_eq(upper, "PMW3360") {
        Some(Sensor::Pmw3360)
    } else if text::str_eq(upper, "PMW3212") {
        Some(Sensor::Pmw3212)
    } else if text::str_eq(upper, "PMW3327") {
        Some(Sensor::Pmw3327)
    } else if text::str_eq(upper, "PMW3389") {
        Some(Sensor::Pmw3389)
    } else {
        None
    }
}

impl Sensor {
    /// The number of the sensor.
    pub open spec fn code(self) -> u8 {
        match self {
            Sensor::Pmw3360 => 0x06,
            Sensor::Pmw3212 => 0x08,
            Sensor::Pmw3327 => 0x0e,
            Sensor::Pmw3389 => 0x0f,
        }
    }

    /// The sensor with a name, whatever the case of its letters.
    pub fn from_name(s: &str) -> (r: Option<Self>)
        ensures
            r == sensor_named(text::upper(s@)),
    {
        let upper = text::to_uppercase(s);
        sensor_from_upper(upper.as_str())
    }

    /// The DPI value that a byte stands for: steps of 100, which the PMW3389
    /// counts from 0 and others from 100.
    pub open spec fn dpi_of_raw(self, raw: u8) -> int {
        if self is Pmw3389 {
            raw * 100
        } else {
            (raw + 1) * 100
        }
    }

    pub fn raw_to_dpi(self, raw: u8) -> (r: u32)
        ensures
            r == self.dpi_of_raw(raw),
    {
        match self {
            Sensor::Pmw3389 => raw as u32 * SINOWEALTH_DPI_STEP,
            _ => (raw as u32 + 1) * SINOWEALTH_DPI_STEP,
        }
    }

    /// The step at or below a DPI value.
    pub open spec fn step_of_dpi(self, dpi: u32) -> int {
        if self is Pmw3389 {
            dpi as int / 100
        } else {
            dpi as int / 100 - 1
        }
    }

    /// The byte for a DPI value; `None` below 100 and beyond the last step.
    pub open spec fn raw_of_dpi(self, dpi: u32) -> Option<u8> {
        if dpi < SINOWEALTH_DPI_MIN || self.step_of_dpi(dpi) > 255 {
            None
        } else {
            Some(self.step_of_dpi(dpi) as u8)
        }
    }

    pub fn dpi_to_raw(self, dpi: u32) -> (r: Option<u8>)
        ensures
            r == self.raw_of_dpi(dpi),
    {
        if dpi < SINOWEALTH_DPI_MIN {
            return None;
        }
        let raw: u32 = match self {
            Sensor::Pmw3389 => dpi / SINOWEALTH_DPI_STEP,
            _ => dpi / SINOWEALTH_DPI_STEP - 1,
        };
        if raw > 255 {
            None
        } else {
            Some(raw as u8)
        }
    }

    /// The highest DPI value of the sensor.
    pub open spec fn top_dpi(self) -> u32 {
        match self {
            Sensor::Pmw3327 => 10200,
            Sensor::Pmw3212 => 7200,
            Sensor::Pmw3360 => 12000,
            Sensor::Pmw3389 => 16000,
        }
    }

    pub fn max_dpi(self) -> (r: u32)
        ensures
            r == self.top_dpi(),
            100 <= r <= 16000,
    {
        match self {
            Sensor::Pmw3327 => 10200,
            Sensor::Pmw3212 => 7200,
            Sensor::Pmw3360 => 12000,
            Sensor::Pmw3389 => 16000,
        }
    }
}

/// Every DPI value that a sensor has comes back as it was written, and a byte
/// that stands for at least 100 is the byte of its value.
pub proof fn sensor_dpi_round_trip(sensor: Sensor, dpi: u32, raw: u8)
    requires
        dpi % 100 == 0,
        100 <= dpi <= sensor.top_dpi(),
        sensor.dpi_of_raw(raw) >= 100,
    ensures
        sensor.raw_of_dpi(dpi) is Some,
        sensor.dpi_of_raw(sensor.raw_of_dpi(dpi)->0) == dpi,
        sensor.raw_of_dpi(sensor.dpi_of_raw(raw) as u32) == Some(raw),
{
}

/// The order of the colours in a report.
#[derive(Debug, Clone, Copy, PartialEq, Eq, Structural)]
pub enum LedType {
    Absent,
    Rgb,
    Rbg,
}

impl LedType {
    /// The order that the device database names.
    pub open spec fn of(lt: SinowealthLedType) -> LedType {
        match lt {
            SinowealthLedType::Absent => LedType::Absent,
            SinowealthLedType::Rgb => LedType::Rgb,
            SinowealthLedType::Rbg => LedType::Rbg,
        }
    }

    pub fn from_database(lt: SinowealthLedType) -> (r: LedType)
        ensures
            r == LedType::of(lt),
    {
        match lt {
            SinowealthLedType::Absent => LedType::Absent,
            SinowealthLedType::Rgb => LedType::Rgb,
            SinowealthLedType::Rbg => LedType::Rbg,
        }
    }
}

/// How many bytes of a report descriptor an item takes.
pub open spec fn item_size(prefix: u8) -> int {
    if prefix % 4 == 3 {
        5
    } else {
        1 + prefix as int % 4
    }
}

/// Whether one of the items of a report descriptor, from a place on, names the
/// report for long settings.
pub open spec fn names_long_report(descriptor: Seq<u8>, at: int) -> bool
    decreases
            (if at < descriptor.len() {
                descriptor.len() - at
            } else {
                0
            }),
{
    if at < 0 || at >= descriptor.len() {
        false
    } else if descriptor[at] == 0x85 && at + 1 < descriptor.len() && descriptor[at + 1] == 0x06 {
        true
    } else {
        names_long_report(descriptor, at + item_size(descriptor[at]))
    }
}

/// Whether a report descriptor names the report for long settings.
pub fn descriptor_is_long(descriptor: &[u8]) -> (r: bool)
    ensures
        r == names_long_report(descriptor@, 0),
{
    let mut i: usize = 0;
    let n: usize = descriptor.len();
    while i < n
        invariant
            n == descriptor@.len(),
            names_long_report(descriptor@, 0) == names_long_report(descriptor@, i as int),
        decreases n - i,
    {
        let prefix: u8 = descriptor[i];
        if prefix == 0x85 && n - i > 1 && descriptor[i + 1] == 0x06 {
            return true;
        }
        let step: usize = if prefix % 4 == 3 {
            5
        } else {
            1 + (prefix % 4) as usize
        };
        if step >= n - i {
            assert(!names_long_report(descriptor@, i + item_size(prefix)));
            return false;
        }
        i += step;
    }
    false
}

/// The text of a firmware version: a `V`, a letter and two digits, or four
/// digits.
pub open spec fn firmware_text(a: u8, b: u8) -> Seq<char> {
    if (65 <= a <= 90) || (97 <= a <= 122) {
        "V"@ + seq![a as char] + text::upper_hex2(b as int)
    } else {
        text::upper_hex2(a as int) + text::upper_hex2(b as int)
    }
}

/// The text of a firmware version.
pub fn format_firmware_version(bytes: [u8; 2]) -> (r: String)
    ensures
        r@ == firmware_text(bytes@[0], bytes@[1]),
{
    let a: u8 = bytes[0];
    let b: u8 = bytes[1];
    let mut s: String = String::new();
    if (65 <= a && a <= 90) || (97 <= a && a <= 122) {
        s.append("V");
        text::push_char(&mut s, a as char);
    } else {
        text::push_upper_hex2(&mut s, a);
    }
    text::push_upper_hex2(&mut s, b);
    assert(s@ =~= firmware_text(a, b));
    s
}

/// Whether settings have a byte that is not zero where only long settings have
/// any.
pub open spec fn has_long_settings(config: Seq<u8>) -> bool {
    exists|i: int| 124 <= i < config.len() && i < 168 && #[trigger] config[i] != 0
}

/// The size of settings.
pub fn detect_config_size(config: &[u8]) -> (r: usize)
    ensures
        r == if has_long_settings(config@) {
            SINOWEALTH_CONFIG_SIZE_MAX
        } else {
            SINOWEALTH_CONFIG_SIZE_MIN
        },
{
    let mut i: usize = 124;
    while i < config.len() && i < 168
        invariant
            124 <= i <= 168,
            forall|k: int| 124 <= k < i && k < config@.len() ==> config@[k] == 0,
        decreases 168 - i,
    {
        if config[i] != 0 {
            assert(config@[i as int] != 0);
            return SINOWEALTH_CONFIG_SIZE_MAX;
        }
        i += 1;
    }
    SINOWEALTH_CONFIG_SIZE_MIN
}

} // verus!
