//! What registers hold.

use crate::bytes;
use crate::text;
use vstd::prelude::*;

verus! {

/// The layout of the onboard profiles of a device.
#[derive(Debug, Clone, Copy, PartialEq, Eq, Structural)]
pub enum Hidpp10ProfileType {
    Unknown,
    G500,
    G700,
    G9,
}

impl Default for Hidpp10ProfileType {
    fn default() -> (r: Self)
        ensures
            r == Hidpp10ProfileType::Unknown,
    {
        Hidpp10ProfileType::Unknown
    }
}

impl Hidpp10ProfileType {
    /// The layout with a name, whatever the case of its letters.
    pub open spec fn named(s: Seq<char>) -> Hidpp10ProfileType {
        if text::same_ignoring_case(s, "G500"@) {
            Hidpp10ProfileType::G500
        } else if text::same_ignoring_case(s, "G700"@) {
            Hidpp10ProfileType::G700
        } else if text::same_ignoring_case(s, "G9"@) {
            Hidpp10ProfileType::G9
        } else {
            Hidpp10ProfileType::Unknown
        }
    }

    pub fn from_str(s: &str) -> (r: Self)
        ensures
            r == Hidpp10ProfileType::named(s@),
    {
        if text::eq_ignore_case(s, "G500") {
            Hidpp10ProfileType::G500
        } else if text::eq_ignore_case(s, "G700") {
            Hidpp10ProfileType::G700
        } else if text::eq_ignore_case(s, "G9") {
            Hidpp10ProfileType::G9
        } else {
            Hidpp10ProfileType::Unknown
        }
    }
}

/// How full a battery is.
#[derive(Debug, Clone, Copy, PartialEq, Eq, Structural)]
pub enum BatteryLevel {
    Unknown,
    Critical,
    CriticalLegacy,
    Low,
    LowLegacy,
    Good,
    GoodLegacy,
    FullLegacy,
}

impl BatteryLevel {
    /// The number of a level in a register.
    pub open spec fn code(self) -> u8 {
        match self {
            BatteryLevel::Unknown => 0,
            BatteryLevel::Critical => 1,
            BatteryLevel::CriticalLegacy => 2,
            BatteryLevel::Low => 3,
            BatteryLevel::LowLegacy => 4,
            BatteryLevel::Good => 5,
            BatteryLevel::GoodLegacy => 6,
            BatteryLevel::FullLegacy => 7,
        }
    }

    /// The level with a number; numbers that are not in use are unknown.
    pub fn from_u8(val: u8) -> (r: Self)
        ensures
            r.code() == if val <= 7 {
                val
            } else {
                0
            },
    {
        match val {
            1 => BatteryLevel::Critical,
            2 => BatteryLevel::CriticalLegacy,
            3 => BatteryLevel::Low,
            4 => BatteryLevel::LowLegacy,
            5 => BatteryLevel::Good,
            6 => BatteryLevel::GoodLegacy,
            7 => BatteryLevel::FullLegacy,
            _ => BatteryLevel::Unknown,
        }
    }
}

/// Whether a battery is being charged.
#[derive(Debug, Clone, Copy, PartialEq, Eq, Structural)]
pub enum BatteryChargeState {
    NotCharging,
    Unknown,
    Charging,
    ChargingComplete,
    ChargingError,
    ChargingFast,
    ChargingSlow,
    ToppingCharge,
}

impl BatteryChargeState {
    /// The number of a state in a register.
    pub open spec fn code(self) -> u8 {
        match self {
            BatteryChargeState::NotCharging => 0x00,
            BatteryChargeState::Unknown => 0x20,
            BatteryChargeState::Charging => 0x21,
            BatteryChargeState::ChargingComplete => 0x22,
            BatteryChargeState::ChargingError => 0x23,
            BatteryChargeState::ChargingFast => 0x24,
            BatteryChargeState::ChargingSlow => 0x25,
            BatteryChargeState::ToppingCharge => 0x26,
        }
    }

    /// The state with a number: none below 0x20, and unknown above 0x26.
    pub fn from_u8(val: u8) -> (r: Self)
        ensures
            r.code() == if val < 0x20 {
                0
            } else if val <= 0x26 {
                val
            } else {
                0x20
            },
    {
        match val {
            0x21 => BatteryChargeState::Charging,
            0x22 => BatteryChargeState::ChargingComplete,
            0x23 => BatteryChargeState::ChargingError,
            0x24 => BatteryChargeState::ChargingFast,
            0x25 => BatteryChargeState::ChargingSlow,
            0x26 => BatteryChargeState::ToppingCharge,
            _ => if val < 0x20 {
                BatteryChargeState::NotCharging
            } else {
                BatteryChargeState::Unknown
            },
        }
    }
}

/// What an LED does.
#[derive(Debug, Clone, Copy, PartialEq, Eq, Structural)]
pub enum LedStatus {
    NoChange,
    Off,
    On,
    Blink,
    Heartbeat,
    SlowOn,
    SlowOff,
}

impl Default for LedStatus {
    fn default() -> (r: Self)
        ensures
            r == LedStatus::NoChange,
    {
        LedStatus::NoChange
    }
}

impl LedStatus {
    /// The number of a status in a register.
    pub open spec fn code(self) -> u8 {
        match self {
            LedStatus::NoChange => 0,
            LedStatus::Off => 1,
            LedStatus::On => 2,
            LedStatus::Blink => 3,
            LedStatus::Heartbeat => 4,
            LedStatus::SlowOn => 5,
            LedStatus::SlowOff => 6,
        }
    }

    /// The status in the lower four bits of a byte; numbers that are not in use
    /// change nothing.
    pub fn from_nibble(val: u8) -> (r: Self)
        ensures
            r.code() == if val % 16 <= 6 {
                (val % 16) as int
            } else {
                0
            },
    {
        match val % 16 {
            1 => LedStatus::Off,
            2 => LedStatus::On,
            3 => LedStatus::Blink,
            4 => LedStatus::Heartbeat,
            5 => LedStatus::SlowOn,
            6 => LedStatus::SlowOff,
            _ => LedStatus::NoChange,
        }
    }

    /// The number of a status in a register.
    pub fn to_nibble(self) -> (r: u8)
        ensures
            r == self.code(),
            r <= 6,
    {
        match self {
            LedStatus::NoChange => 0,
            LedStatus::Off => 1,
            LedStatus::On => 2,
            LedStatus::Blink => 3,
            LedStatus::Heartbeat => 4,
            LedStatus::SlowOn => 5,
            LedStatus::SlowOff => 6,
        }
    }
}

/// The battery of a device.
#[derive(Debug, Clone, Copy, PartialEq, Eq, Structural)]
pub struct BatteryStatusInfo {
    pub level: BatteryLevel,
    pub charge_state: BatteryChargeState,
    pub low_threshold_percent: u8,
}

/// How long the battery of a device lasts.
#[derive(Debug, Clone, Copy, PartialEq, Eq, Structural)]
pub struct BatteryMileage {
    pub level_percent: u8,
    pub max_seconds: u32,
    pub charge_state: BatteryChargeState,
}

/// The firmware of a device.
#[derive(Debug, Clone, Copy, PartialEq, Eq, Structural)]
pub struct FirmwareInfo {
    pub major: u8,
    pub minor: u8,
    pub build: u16,
}

/// A device as its receiver knows it.
#[derive(Debug, Clone, Copy, PartialEq, Eq, Structural)]
pub struct PairingInfo {
    pub report_interval: u8,
    pub wpid: u16,
    pub device_type: u8,
}

/// The refresh rate register.
#[derive(Debug, Clone, Copy, PartialEq, Eq, Structural)]
pub struct Hidpp10RefreshRatePayload {
    pub rate: u8,
    pub param2: u8,
    pub param3: u8,
}

impl Hidpp10RefreshRatePayload {
    pub fn from_bytes(buf: &[u8; 3]) -> (r: Self)
        ensures
            r == (Hidpp10RefreshRatePayload { rate: buf[0], param2: buf[1], param3: buf[2] }),
    {
        Hidpp10RefreshRatePayload { rate: buf[0], param2: buf[1], param3: buf[2] }
    }
}

/// The LED colour register.
#[derive(Debug, Clone, Copy, PartialEq, Eq, Structural)]
pub struct Hidpp10LedColorPayload {
    pub r: u8,
    pub g: u8,
    pub b: u8,
}

impl Hidpp10LedColorPayload {
    pub fn from_bytes(buf: &[u8; 3]) -> (r: Self)
        ensures
            r == (Hidpp10LedColorPayload { r: buf[0], g: buf[1], b: buf[2] }),
    {
        Hidpp10LedColorPayload { r: buf[0], g: buf[1], b: buf[2] }
    }
}

/// The resolution register in its long form.
#[derive(Debug, Clone, Copy)]
pub struct Hidpp10ResolutionLongPayload {
    pub xres: [u8; 2],
    pub yres: [u8; 2],
    pub padding: [u8; 12],
}

impl Hidpp10ResolutionLongPayload {
    /// The bytes of the register.
    pub open spec fn wire(self) -> Seq<u8> {
        self.xres@ + self.yres@ + self.padding@
    }

    pub fn from_bytes(buf: &[u8; 16]) -> (r: Self)
        ensures
            r.wire() == buf@,
    {
        let r = Hidpp10ResolutionLongPayload {
            xres: [buf[0], buf[1]],
            yres: [buf[2], buf[3]],
            padding: [
                buf[4],
                buf[5],
                buf[6],
                buf[7],
                buf[8],
                buf[9],
                buf[10],
                buf[11],
                buf[12],
                buf[13],
                buf[14],
                buf[15],
            ],
        };
        assert(r.wire() =~= buf@);
        r
    }

    pub fn xres(&self) -> (r: u16)
        ensures
            r == bytes::be16(self.wire()[1], self.wire()[0]),
    {
        bytes::u16_from(self.xres[1], self.xres[0])
    }

    pub fn yres(&self) -> (r: u16)
        ensures
            r == bytes::be16(self.wire()[3], self.wire()[2]),
    {
        bytes::u16_from(self.yres[1], self.yres[0])
    }

    pub fn set_xres(&mut self, res: u16)
        ensures
            final(self).wire() == bytes::spliced(old(self).wire(), 0, bytes::le_bytes(res)),
    {
        self.xres = [bytes::low_byte(res), bytes::high_byte(res)];
        assert(self.wire() =~= bytes::spliced(old(self).wire(), 0, bytes::le_bytes(res)));
    }

    pub fn set_yres(&mut self, res: u16)
        ensures
            final(self).wire() == bytes::spliced(old(self).wire(), 2, bytes::le_bytes(res)),
    {
        self.yres = [bytes::low_byte(res), bytes::high_byte(res)];
        assert(self.wire() =~= bytes::spliced(old(self).wire(), 2, bytes::le_bytes(res)));
    }

    /// The bytes of the register.
    pub fn to_bytes(&self) -> (r: [u8; 16])
        ensures
            r@ == self.wire(),
    {
        let r: [u8; 16] = [
            self.xres[0],
            self.xres[1],
            self.yres[0],
            self.yres[1],
            self.padding[0],
            self.padding[1],
            self.padding[2],
            self.padding[3],
            self.padding[4],
            self.padding[5],
            self.padding[6],
            self.padding[7],
            self.padding[8],
            self.padding[9],
            self.padding[10],
            self.padding[11],
        ];
        assert(r@ =~= self.wire());
        r
    }
}

impl Default for Hidpp10ResolutionLongPayload {
    fn default() -> (r: Self)
        ensures
            r.wire() == bytes::filled(16, 0),
    {
        let r = Hidpp10ResolutionLongPayload { xres: [0; 2], yres: [0; 2], padding: [0; 12] };
        assert(r.wire() =~= bytes::filled(16, 0));
        r
    }
}

/// A resolution that was set is the one that is read, on its axis, and leaves
/// the other axis alone.
pub proof fn resolution_payload_round_trip(wire: Seq<u8>, res: u16)
    requires
        wire.len() == 16,
    ensures
        ({
            let x = bytes::spliced(wire, 0, bytes::le_bytes(res));
            let y = bytes::spliced(wire, 2, bytes::le_bytes(res));
            &&& bytes::be16(x[1], x[0]) == res
            &&& bytes::be16(y[3], y[2]) == res
            &&& x[2] == wire[2] && x[3] == wire[3]
            &&& y[0] == wire[0] && y[1] == wire[1]
        }),
{
    bytes::bytes_round_trip(res, 0, 0);
}

} // verus!
