//! MarsGaming MM4 mice: the layout of their reports. Profiles cannot be loaded
//! or written yet.

use crate::bytes;
use vstd::prelude::*;

verus! {

/// How many profiles a device has.
pub const NUM_PROFILES: usize = 5;

pub const RES_MIN: u32 = 50;

pub const RES_MAX: u32 = 16400;

pub const RES_SCALING: u32 = 50;

/// What a report is for.
#[derive(Debug, Clone, Copy, PartialEq, Eq, Structural)]
pub enum ReportType {
    Unknown1,
    Write,
    Read,
    Unknown4,
    Unknown6,
}

impl ReportType {
    /// The byte that stands for this type.
    pub open spec fn code(self) -> u8 {
        match self {
            ReportType::Unknown1 => 0x01,
            ReportType::Write => 0x02,
            ReportType::Read => 0x03,
            ReportType::Unknown4 => 0x04,
            ReportType::Unknown6 => 0x06,
        }
    }

    /// The byte that stands for this type.
    pub fn to_byte(self) -> (r: u8)
        ensures
            r == self.code(),
    {
        match self {
            ReportType::Unknown1 => 0x01,
            ReportType::Write => 0x02,
            ReportType::Read => 0x03,
            ReportType::Unknown4 => 0x04,
            ReportType::Unknown6 => 0x06,
        }
    }
}

/// A resolution.
#[derive(Debug, Clone, Copy)]
pub struct ResolutionInfo {
    pub enabled: bool,
    pub x_res: u16,
    pub y_res: u16,
    /// The LEDs that are lit, in four bits.
    pub led_bitset: u8,
    pub _zeros: [u8; 2],
}

impl ResolutionInfo {
    /// Whether nothing was read yet.
    pub open spec fn is_blank(self) -> bool {
        !self.enabled && self.x_res == 0 && self.y_res == 0 && self.led_bitset == 0 && self._zeros@
            == bytes::filled(2, 0)
    }
}

impl Default for ResolutionInfo {
    fn default() -> (r: Self)
        ensures
            r.is_blank(),
    {
        let r = ResolutionInfo {
            enabled: false,
            x_res: 0,
            y_res: 0,
            led_bitset: 0,
            _zeros: [0u8; 2],
        };
        assert(r._zeros@ =~= bytes::filled(2, 0));
        r
    }
}

/// The report for the resolutions of a profile.
#[derive(Debug)]
pub struct ResolutionReport {
    pub usb_report_id: u8,
    pub report_type: u8,
    pub unknown_2: u8,
    pub profile_id: u8,
    pub unknown_4: u8,
    pub unknown_5: u8,
    pub unknown_6: u8,
    pub unknown_7: u8,
    pub count_resolutions: u8,
    pub current_resolution: u8,
    pub resolutions: [ResolutionInfo; 6],
    pub padding: [u8; 6],
}

impl ResolutionReport {
    /// Whether nothing was read yet.
    pub open spec fn is_blank(self) -> bool {
        &&& self.usb_report_id == 0 && self.report_type == 0 && self.unknown_2 == 0
        &&& self.profile_id == 0 && self.unknown_4 == 0 && self.unknown_5 == 0
        &&& self.unknown_6 == 0 && self.unknown_7 == 0 && self.count_resolutions == 0
        &&& self.current_resolution == 0 && self.padding@ == bytes::filled(6, 0)
        &&& forall|i: int| 0 <= i < 6 ==> (#[trigger] self.resolutions@[i]).is_blank()
    }
}

impl Default for ResolutionReport {
    fn default() -> (r: Self)
        ensures
            r.is_blank(),
    {
        let blank = ResolutionInfo::default();
        let r = ResolutionReport {
            usb_report_id: 0,
            report_type: 0,
            unknown_2: 0,
            profile_id: 0,
            unknown_4: 0,
            unknown_5: 0,
            unknown_6: 0,
            unknown_7: 0,
            count_resolutions: 0,
            current_resolution: 0,
            resolutions: [blank; 6],
            padding: [0u8; 6],
        };
        assert(r.padding@ =~= bytes::filled(6, 0));
        r
    }
}

impl Clone for ResolutionReport {
    fn clone(&self) -> (r: Self)
        ensures
            r == *self,
    {
        ResolutionReport {
            usb_report_id: self.usb_report_id,
            report_type: self.report_type,
            unknown_2: self.unknown_2,
            profile_id: self.profile_id,
            unknown_4: self.unknown_4,
            unknown_5: self.unknown_5,
            unknown_6: self.unknown_6,
            unknown_7: self.unknown_7,
            count_resolutions: self.count_resolutions,
            current_resolution: self.current_resolution,
            resolutions: self.resolutions,
            padding: self.padding,
        }
    }
}

/// The binding of a button.
#[derive(Debug, Clone, Copy)]
pub struct ButtonInfo {
    pub function_type: u8,
    pub params: [u8; 3],
}

impl ButtonInfo {
    /// Whether nothing was read yet.
    pub open spec fn is_blank(self) -> bool {
        self.function_type == 0 && self.params@ == bytes::filled(3, 0)
    }
}

impl Default for ButtonInfo {
    fn default() -> (r: Self)
        ensures
            r.is_blank(),
    {
        let r = ButtonInfo { function_type: 0, params: [0u8; 3] };
        assert(r.params@ =~= bytes::filled(3, 0));
        r
    }
}

/// The report for the buttons of a profile.
#[derive(Debug)]
pub struct ButtonReport {
    pub usb_report_id: u8,
    pub report_type: u8,
    pub unknown_2: u8,
    pub profile_id: u8,
    pub unknown_4: u8,
    pub unknown_5: u8,
    pub unknown_6: u8,
    pub unknown_7: u8,
    pub button_count: u8,
    pub buttons: Box<[ButtonInfo; 253]>,
    pub padding: [u8; 3],
}

impl ButtonReport {
    /// Whether nothing was read yet.
    pub open spec fn is_blank(self) -> bool {
        &&& self.usb_report_id == 0 && self.report_type == 0 && self.unknown_2 == 0
        &&& self.profile_id == 0 && self.unknown_4 == 0 && self.unknown_5 == 0
        &&& self.unknown_6 == 0 && self.unknown_7 == 0 && self.button_count == 0
        &&& self.padding@ == bytes::filled(3, 0)
        &&& forall|i: int| 0 <= i < 253 ==> (#[trigger] self.buttons@[i]).is_blank()
    }
}

impl Default for ButtonReport {
    fn default() -> (r: Self)
        ensures
            r.is_blank(),
    {
        let blank = ButtonInfo::default();
        let r = ButtonReport {
            usb_report_id: 0,
            report_type: 0,
            unknown_2: 0,
            profile_id: 0,
            unknown_4: 0,
            unknown_5: 0,
            unknown_6: 0,
            unknown_7: 0,
            button_count: 0,
            buttons: Box::new([blank; 253]),
            padding: [0u8; 3],
        };
        assert(r.padding@ =~= bytes::filled(3, 0));
        r
    }
}

/// What an LED does.
#[derive(Debug, Clone, Copy, PartialEq, Eq, Structural)]
pub enum LedMode {
    Off,
    Static,
    Breathing,
    Rainbow,
}

impl LedMode {
    /// The byte that stands for this mode.
    pub open spec fn code(self) -> u8 {
        match self {
            LedMode::Off => 0x00,
            LedMode::Static => 0x01,
            LedMode::Breathing => 0x02,
            LedMode::Rainbow => 0x03,
        }
    }

    /// The byte that stands for this mode.
    pub fn to_byte(self) -> (r: u8)
        ensures
            r == self.code(),
    {
        match self {
            LedMode::Off => 0x00,
            LedMode::Static => 0x01,
            LedMode::Breathing => 0x02,
            LedMode::Rainbow => 0x03,
        }
    }
}

impl Default for LedMode {
    fn default() -> (r: Self)
        ensures
            r == LedMode::Off,
    {
        LedMode::Off
    }
}

/// The state of an LED.
#[derive(Debug, Clone, Copy, PartialEq, Eq, Structural)]
pub struct LedState {
    pub mode: u8,
    pub red: u8,
    pub green: u8,
    pub blue: u8,
    pub speed: u8,
    pub brightness: u8,
}

impl Default for LedState {
    fn default() -> (r: Self)
        ensures
            r == (LedState { mode: 0, red: 0, green: 0, blue: 0, speed: 0, brightness: 0 }),
    {
        LedState { mode: 0, red: 0, green: 0, blue: 0, speed: 0, brightness: 0 }
    }
}

/// The report for the LED of a profile.
#[derive(Debug, Clone, Copy, PartialEq, Eq, Structural)]
pub struct LedReport {
    pub usb_report_id: u8,
    pub report_type: u8,
    pub unknown_2: u8,
    pub profile_id: u8,
    pub unknown_4: u8,
    pub unknown_5: u8,
    pub unknown_6: u8,
    pub unknown_7: u8,
    pub led: LedState,
    pub unknown_13: u8,
    pub unknown_14: u8,
    pub unknown_15: u8,
}

impl LedReport {
    /// Nothing was read yet.
    pub open spec fn blank() -> LedReport {
        LedReport {
            usb_report_id: 0,
            report_type: 0,
            unknown_2: 0,
            profile_id: 0,
            unknown_4: 0,
            unknown_5: 0,
            unknown_6: 0,
            unknown_7: 0,
            led: LedState { mode: 0, red: 0, green: 0, blue: 0, speed: 0, brightness: 0 },
            unknown_13: 0,
            unknown_14: 0,
            unknown_15: 0,
        }
    }
}

impl Default for LedReport {
    fn default() -> (r: Self)
        ensures
            r == LedReport::blank(),
    {
        LedReport {
            usb_report_id: 0,
            report_type: 0,
            unknown_2: 0,
            profile_id: 0,
            unknown_4: 0,
            unknown_5: 0,
            unknown_6: 0,
            unknown_7: 0,
            led: LedState::default(),
            unknown_13: 0,
            unknown_14: 0,
            unknown_15: 0,
        }
    }
}

/// What was read of a profile.
#[derive(Debug)]
pub struct ProfileData {
    pub buttons: ButtonReport,
    pub resolutions: ResolutionReport,
    pub led: LedReport,
}

impl ProfileData {
    /// Whether nothing was read yet.
    pub open spec fn is_blank(self) -> bool {
        self.buttons.is_blank() && self.resolutions.is_blank() && self.led == LedReport::blank()
    }
}

impl Default for ProfileData {
    fn default() -> (r: Self)
        ensures
            r.is_blank(),
    {
        ProfileData {
            buttons: ButtonReport::default(),
            resolutions: ResolutionReport::default(),
            led: LedReport::default(),
        }
    }
}

/// What was read from a device.
#[derive(Debug)]
pub struct MarsData {
    pub profiles: Vec<ProfileData>,
    pub active_profile: u8,
}

/// Why a device cannot be used.
#[derive(Debug, Clone, Copy, PartialEq, Eq, Structural)]
pub enum MarsError {
    /// Profiles cannot be loaded or written yet.
    NotImplemented,
}

/// Driver of MarsGaming mice.
#[derive(Debug)]
pub struct MarsGamingDriver {
    /// What was read from the device.
    pub data: Option<MarsData>,
}

/// The question for the resolutions of the first profile.
pub open spec fn resolution_question() -> Seq<u8> {
    bytes::padded(seq![0x01u8, 0x03, 0x4f, 0x00, 0x2a, 0x00, 0xfa, 0xfa], 64)
}

/// The question for the resolutions of the first profile.
pub fn probe_request() -> (r: [u8; 64])
    ensures
        r@ == resolution_question(),
{
    let mut r: [u8; 64] = [0u8; 64];
    r[0] = 0x01;
    r[1] = ReportType::Read.to_byte();
    r[2] = 0x4f;
    r[4] = 0x2a;
    r[6] = 0xfa;
    r[7] = 0xfa;
    assert(r@ =~= resolution_question());
    r
}

impl MarsGamingDriver {
    pub fn new() -> (r: Self)
        ensures
            r.data is None,
    {
        MarsGamingDriver { data: None }
    }

    /// Notes that the device has answered, and then gives up: there is no more
    /// that the driver can do.
    pub fn probed(&mut self) -> (r: MarsError)
        ensures
            r == MarsError::NotImplemented,
            final(self).data matches Some(d) && d.active_profile == 0 && d.profiles@.len()
                == NUM_PROFILES && forall|i: int|
                0 <= i < NUM_PROFILES ==> (#[trigger] d.profiles@[i]).is_blank(),
    {
        let mut profiles: Vec<ProfileData> = Vec::new();
        let mut i: usize = 0;
        while i < NUM_PROFILES
            invariant
                i <= NUM_PROFILES,
                profiles@.len() == i,
                forall|k: int| 0 <= k < i ==> (#[trigger] profiles@[k]).is_blank(),
            decreases NUM_PROFILES - i,
        {
            profiles.push(ProfileData::default());
            i += 1;
        }
        self.data = Some(MarsData { profiles, active_profile: 0 });
        MarsError::NotImplemented
    }
}

/// Whether a device can have a resolution.
pub open spec fn valid_dpi(dpi: u32) -> bool {
    RES_MIN <= dpi <= RES_MAX && dpi % RES_SCALING == 0
}

/// The number that stands for a resolution; only those from 50 to 16400 in
/// steps of 50 have one.
pub fn dpi_to_raw(dpi: u32) -> (r: Option<u16>)
    ensures
        match r {
            Some(raw) => valid_dpi(dpi) && raw == dpi / 50,
            None => !valid_dpi(dpi),
        },
{
    if dpi < RES_MIN || dpi > RES_MAX || dpi % RES_SCALING != 0 {
        return None;
    }
    Some((dpi / RES_SCALING) as u16)
}

/// The resolution that a number stands for.
pub open spec fn dpi_of_raw(raw: u16) -> u32 {
    (raw * 50) as u32
}

/// The resolution that a number stands for.
pub fn raw_to_dpi(raw: u16) -> (r: u32)
    ensures
        r == dpi_of_raw(raw),
{
    raw as u32 * RES_SCALING
}

/// A resolution reads back as it was stored.
pub proof fn dpi_round_trip(dpi: u32)
    requires
        valid_dpi(dpi),
    ensures
        dpi_of_raw((dpi / 50) as u16) == dpi,
{
}

} // verus!
