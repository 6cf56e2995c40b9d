//! Loading a device and writing its active profile.

use crate::engine::device;
use crate::engine::device::{
    ActionType, ButtonInfo, ButtonModel, Color, DeviceInfo, DeviceModel, Dpi, LedInfo, LedMode,
    LedModel, ProfileInfo, ProfileModel, ResolutionInfo, ResolutionModel,
};
use crate::engine::device_database::{DpiRange, DriverConfigModel};
use crate::engine::special_action;
use crate::hal::steelseries::report::{
    DeviceQuirks, ProtocolVersion, Report, ReportModel, STEELSERIES_REPORT_SIZE,
    STEELSERIES_REPORT_SIZE_SHORT, SteelseriesError,
};
use crate::text;
use vstd::prelude::*;
use vstd::string::*;

verus! {

pub const STEELSERIES_NUM_DPI: u32 = 2;

pub const STEELSERIES_ID_DPI_SHORT: u8 = 0x03;

pub const STEELSERIES_ID_REPORT_RATE_SHORT: u8 = 0x04;

pub const STEELSERIES_ID_SAVE_SHORT: u8 = 0x09;

pub const STEELSERIES_ID_FIRMWARE_PROTOCOL1: u8 = 0x10;

pub const STEELSERIES_ID_DPI: u8 = 0x53;

pub const STEELSERIES_ID_REPORT_RATE: u8 = 0x54;

pub const STEELSERIES_ID_SAVE: u8 = 0x59;

pub const STEELSERIES_ID_FIRMWARE_PROTOCOL2: u8 = 0x90;

pub const STEELSERIES_ID_SETTINGS: u8 = 0x92;

pub const STEELSERIES_ID_DPI_PROTOCOL3: u8 = 0x03;

pub const STEELSERIES_ID_REPORT_RATE_PROTOCOL3: u8 = 0x04;

pub const STEELSERIES_ID_SAVE_PROTOCOL3: u8 = 0x09;

pub const STEELSERIES_ID_FIRMWARE_PROTOCOL3: u8 = 0x10;

pub const STEELSERIES_ID_SETTINGS_PROTOCOL3: u8 = 0x16;

pub const STEELSERIES_ID_DPI_PROTOCOL4: u8 = 0x15;

pub const STEELSERIES_ID_REPORT_RATE_PROTOCOL4: u8 = 0x17;

/// Marks a resolution in versions 2 and 3.
pub const STEELSERIES_DPI_MAGIC_MARKER: u8 = 0x42;

/// Driver of SteelSeries mice.
#[derive(Debug, Clone, Copy)]
pub struct SteelseriesDriver {
    /// The version of the protocol, once a device was loaded.
    pub version: Option<ProtocolVersion>,
    pub quirks: DeviceQuirks,
}

/// The step between resolutions.
pub open spec fn step_of(config: DriverConfigModel) -> u32 {
    match config.dpi_range {
        Some(r) => r.step,
        None => 100,
    }
}

/// The step between resolutions, 100 where the database gives no range.
pub fn dpi_step(info: &DeviceInfo) -> (r: u32)
    ensures
        r == step_of(info@.driver_config),
{
    match &info.driver_config.dpi_range {
        Some(r) => r.step,
        None => 100,
    }
}

/// The resolutions that a device can have; none where the database gives no
/// range.
pub open spec fn range_values(range: Option<DpiRange>) -> Seq<u32> {
    match range {
        Some(r) => device::stepped_range(r.min, r.max, r.step),
        None => Seq::empty(),
    }
}

/// The button that switches the resolution, by the number of buttons.
pub open spec fn cycle_button(count: u32) -> u32 {
    if count <= 6 {
        5
    } else if count == 7 {
        6
    } else {
        7
    }
}

/// A button before anything was changed.
pub open spec fn default_button(id: u32, count: u32, senseiraw: bool) -> ButtonModel {
    ButtonModel {
        index: id,
        action_type: if id == cycle_button(count) {
            ActionType::Special
        } else if id < 8 {
            ActionType::Button
        } else {
            ActionType::NoAction
        },
        action_types: if senseiraw {
            seq![0u32, 1, 2]
        } else {
            seq![0u32, 1, 2, 4]
        },
        mapping_value: if id == cycle_button(count) {
            special_action::RESOLUTION_CYCLE_UP
        } else if id < 8 {
            (id + 1) as u32
        } else {
            0
        },
        macro_entries: Seq::empty(),
    }
}

/// An LED before anything was changed: blue, or without colors.
pub open spec fn default_led(version: ProtocolVersion, id: u32, senseiraw: bool) -> LedModel {
    LedModel {
        index: id,
        mode: LedMode::Solid,
        modes: if version is V1 {
            seq![LedMode::Off, LedMode::Solid, LedMode::Breathing]
        } else {
            seq![LedMode::Off, LedMode::Solid, LedMode::Breathing, LedMode::Cycle]
        },
        color: if senseiraw {
            Color::black()
        } else {
            Color { red: 0, green: 0, blue: 255 }
        },
        secondary_color: Color::black(),
        tertiary_color: Color::black(),
        color_depth: if senseiraw {
            1
        } else {
            3
        },
        effect_duration: 1000,
        brightness: 255,
    }
}

/// A resolution before anything was read.
pub open spec fn default_resolution(id: int, dpi_list: Seq<u32>) -> ResolutionModel {
    ResolutionModel {
        index: id as u32,
        dpi: Dpi::Unified((800 * (id + 1)) as u32),
        dpi_list,
        capabilities: Seq::empty(),
        is_active: id == 0,
        is_default: id == 0,
        is_disabled: false,
    }
}

/// The profile of a device before anything was read.
pub open spec fn default_profile(version: ProtocolVersion, config: DriverConfigModel) -> ProfileModel {
    let senseiraw = DeviceQuirks::of(config).is_senseiraw;
    let buttons = device::or_default(config.buttons, 0);
    let leds = device::or_default(config.leds, 0);
    ProfileModel {
        index: 0,
        name: "Profile 0"@,
        is_active: true,
        is_enabled: true,
        is_dirty: false,
        report_rate: 1000,
        report_rates: seq![125u32, 250, 500, 1000],
        angle_snapping: -1i32,
        debounce: -1i32,
        debounces: Seq::empty(),
        capabilities: Seq::empty(),
        resolutions: Seq::new(
            2,
            |i: int| default_resolution(i, range_values(config.dpi_range)),
        ),
        buttons: Seq::new(
            buttons as nat,
            |i: int| default_button(i as u32, buttons, senseiraw),
        ),
        leds: Seq::new(leds as nat, |i: int| default_led(version, i as u32, senseiraw)),
    }
}

/// A button before anything was changed. The special action that switches the
/// resolution stands on a button that depends on how many there are.
pub fn build_button(btn_id: u32, button_count: u32, senseiraw: bool) -> (r: ButtonInfo)
    ensures
        r@ == default_button(btn_id, button_count, senseiraw),
{
    let mut action_types: Vec<u32> = vec![0, 1, 2];
    if !senseiraw {
        action_types.push(4);
    }
    let special: u32 = if button_count <= 6 {
        5
    } else if button_count == 7 {
        6
    } else {
        7
    };
    let (action_type, mapping_value) = if btn_id == special {
        (ActionType::Special, special_action::RESOLUTION_CYCLE_UP)
    } else if btn_id < 8 {
        (ActionType::Button, btn_id + 1)
    } else {
        (ActionType::NoAction, 0)
    };
    let r = ButtonInfo {
        index: btn_id,
        action_type,
        action_types,
        mapping_value,
        macro_entries: Vec::new(),
    };
    assert(r@ =~= default_button(btn_id, button_count, senseiraw));
    r
}

/// An LED before anything was changed.
pub fn build_led(version: ProtocolVersion, led_id: u32, senseiraw: bool) -> (r: LedInfo)
    ensures
        r@ == default_led(version, led_id, senseiraw),
{
    let mut modes: Vec<LedMode> = vec![LedMode::Off, LedMode::Solid, LedMode::Breathing];
    if version != ProtocolVersion::V1 {
        modes.push(LedMode::Cycle);
    }
    let r = LedInfo {
        index: led_id,
        mode: LedMode::Solid,
        modes,
        color: if senseiraw {
            Color { red: 0, green: 0, blue: 0 }
        } else {
            Color { red: 0, green: 0, blue: 255 }
        },
        secondary_color: Color { red: 0, green: 0, blue: 0 },
        tertiary_color: Color { red: 0, green: 0, blue: 0 },
        color_depth: if senseiraw {
            1
        } else {
            3
        },
        effect_duration: 1000,
        brightness: 255,
    };
    assert(r@ =~= default_led(version, led_id, senseiraw));
    r
}

fn build_resolutions(range: &Option<DpiRange>) -> (r: Vec<ResolutionInfo>)
    requires
        range matches Some(v) ==> v.step > 0,
    ensures
        device::resolutions_view(r@) == Seq::new(
            2,
            |i: int| default_resolution(i, range_values(*range)),
        ),
{
    let mut r: Vec<ResolutionInfo> = Vec::new();
    let mut i: u32 = 0;
    while i < STEELSERIES_NUM_DPI
        invariant
            i <= STEELSERIES_NUM_DPI,
            range matches Some(v) ==> v.step > 0,
            r@.len() == i,
            forall|k: int|
                0 <= k < i ==> (#[trigger] r@[k])@ == default_resolution(k, range_values(*range)),
        decreases STEELSERIES_NUM_DPI - i,
    {
        let dpi_list = match range {
            Some(v) => device::stepped_list(v.min, v.max, v.step),
            None => Vec::new(),
        };
        let item = ResolutionInfo {
            index: i,
            dpi: Dpi::Unified(800 * (i + 1)),
            dpi_list,
            capabilities: Vec::new(),
            is_active: i == 0,
            is_default: i == 0,
            is_disabled: false,
        };
        assert(item@ =~= default_resolution(i as int, range_values(*range)));
        r.push(item);
        i += 1;
    }
    assert(device::resolutions_view(r@) =~= Seq::new(
        2,
        |i: int| default_resolution(i, range_values(*range)),
    ));
    r
}

fn build_buttons(count: u32, senseiraw: bool) -> (r: Vec<ButtonInfo>)
    ensures
        device::buttons_view(r@) == Seq::new(
            count as nat,
            |i: int| default_button(i as u32, count, senseiraw),
        ),
{
    let mut r: Vec<ButtonInfo> = Vec::new();
    let mut i: u32 = 0;
    while i < count
        invariant
            i <= count,
            r@.len() == i,
            forall|k: int|
                0 <= k < i ==> (#[trigger] r@[k])@ == default_button(k as u32, count, senseiraw),
        decreases count - i,
    {
        r.push(build_button(i, count, senseiraw));
        i += 1;
    }
    assert(device::buttons_view(r@) =~= Seq::new(
        count as nat,
        |i: int| default_button(i as u32, count, senseiraw),
    ));
    r
}

fn build_leds(version: ProtocolVersion, count: u32, senseiraw: bool) -> (r: Vec<LedInfo>)
    ensures
        device::leds_view(r@) == Seq::new(
            count as nat,
            |i: int| default_led(version, i as u32, senseiraw),
        ),
{
    let mut r: Vec<LedInfo> = Vec::new();
    let mut i: u32 = 0;
    while i < count
        invariant
            i <= count,
            r@.len() == i,
            forall|k: int|
                0 <= k < i ==> (#[trigger] r@[k])@ == default_led(version, k as u32, senseiraw),
        decreases count - i,
    {
        r.push(build_led(version, i, senseiraw));
        i += 1;
    }
    assert(device::leds_view(r@) =~= Seq::new(
        count as nat,
        |i: int| default_led(version, i as u32, senseiraw),
    ));
    r
}

/// The settings of a resolution that version 2 reports.
pub open spec fn read_resolution(data: Seq<u8>, r: ResolutionModel) -> ResolutionModel {
    let at = 2 + r.index * 2;
    ResolutionModel {
        is_active: r.index == reported_resolution(data[1]),
        dpi: if at < data.len() {
            Dpi::Unified((100 * (1 + data[at])) as u32)
        } else {
            r.dpi
        },
        ..r
    }
}

/// The resolution that a device reports as active; it counts from one.
pub open spec fn reported_resolution(b: u8) -> u32 {
    if b == 0 {
        0
    } else {
        (b - 1) as u32
    }
}

/// The color of an LED that version 2 reports.
pub open spec fn read_led(data: Seq<u8>, l: LedModel) -> LedModel {
    let at = 6 + l.index * 3;
    if at + 2 < data.len() {
        LedModel {
            color: Color {
                red: data[at] as u32,
                green: data[at + 1] as u32,
                blue: data[at + 2] as u32,
            },
            ..l
        }
    } else {
        l
    }
}

/// A profile with the settings that a device reports. A report of less than
/// two bytes says nothing.
pub open spec fn with_settings(version: ProtocolVersion, p: ProfileModel, data: Seq<u8>) -> ProfileModel {
    if data.len() < 2 {
        p
    } else {
        match version {
            ProtocolVersion::V2 => ProfileModel {
                resolutions: p.resolutions.map_values(
                    |r: ResolutionModel| read_resolution(data, r),
                ),
                leds: p.leds.map_values(|l: LedModel| read_led(data, l)),
                ..p
            },
            ProtocolVersion::V3 => ProfileModel {
                resolutions: p.resolutions.map_values(
                    |r: ResolutionModel|
                        ResolutionModel {
                            is_active: r.index == reported_resolution(data[0]),
                            ..r
                        },
                ),
                ..p
            },
            _ => p,
        }
    }
}

fn settle_resolutions(version: ProtocolVersion, list: &mut Vec<ResolutionInfo>, data: &[u8])
    requires
        data@.len() >= 2,
        version is V2 || version is V3,
    ensures
        device::resolutions_view(final(list)@) == device::resolutions_view(old(list)@).map_values(
            |r: ResolutionModel|
                if version is V2 {
                    read_resolution(data@, r)
                } else {
                    ResolutionModel { is_active: r.index == reported_resolution(data@[0]), ..r }
                },
        ),
{
    let ghost f = |r: ResolutionModel|
        if version is V2 {
            read_resolution(data@, r)
        } else {
            ResolutionModel { is_active: r.index == reported_resolution(data@[0]), ..r }
        };
    let marker: u8 = if version == ProtocolVersion::V2 {
        data[1]
    } else {
        data[0]
    };
    let active: u32 = if marker == 0 {
        0
    } else {
        marker as u32 - 1
    };
    let mut i: usize = 0;
    while i < list.len()
        invariant
            i <= list@.len(),
            list@.len() == old(list)@.len(),
            data@.len() >= 2,
            active == reported_resolution(
                if version is V2 {
                    data@[1]
                } else {
                    data@[0]
                },
            ),
            f == (|r: ResolutionModel|
                if version is V2 {
                    read_resolution(data@, r)
                } else {
                    ResolutionModel { is_active: r.index == reported_resolution(data@[0]), ..r }
                }),
            forall|k: int| 0 <= k < i ==> (#[trigger] list@[k])@ == f(old(list)@[k]@),
            forall|k: int| i <= k < list@.len() ==> (#[trigger] list@[k])@ == old(list)@[k]@,
        decreases list@.len() - i,
    {
        let ghost before = list@[i as int]@;
        let index: u32 = list[i].index;
        list[i].is_active = index == active;
        if version == ProtocolVersion::V2 {
            let at: u64 = 2 + index as u64 * 2;
            if at < data.len() as u64 {
                list[i].dpi = Dpi::Unified(100 * (1 + data[at as usize] as u32));
            }
        }
        assert(list@[i as int]@ =~= f(before));
        i += 1;
    }
    assert(device::resolutions_view(list@) =~= device::resolutions_view(old(list)@).map_values(f));
}

fn settle_leds(list: &mut Vec<LedInfo>, data: &[u8])
    ensures
        device::leds_view(final(list)@) == device::leds_view(old(list)@).map_values(
            |l: LedModel| read_led(data@, l),
        ),
{
    let mut i: usize = 0;
    while i < list.len()
        invariant
            i <= list@.len(),
            list@.len() == old(list)@.len(),
            forall|k: int| 0 <= k < i ==> (#[trigger] list@[k])@ == read_led(data@, old(list)@[k]@),
            forall|k: int| i <= k < list@.len() ==> (#[trigger] list@[k])@ == old(list)@[k]@,
        decreases list@.len() - i,
    {
        let ghost before = list@[i as int]@;
        let at: u64 = 6 + list[i].index as u64 * 3;
        if at + 2 < data.len() as u64 {
            let at: usize = at as usize;
            list[i].color = Color {
                red: data[at] as u32,
                green: data[at + 1] as u32,
                blue: data[at + 2] as u32,
            };
        }
        assert(list@[i as int]@ =~= read_led(data@, before));
        i += 1;
    }
    assert(device::leds_view(list@) =~= device::leds_view(old(list)@).map_values(
        |l: LedModel| read_led(data@, l),
    ));
}

/// Takes over the settings that a device reports.
pub fn apply_settings(version: ProtocolVersion, profile: &mut ProfileInfo, data: &[u8])
    ensures
        final(profile)@ == with_settings(version, old(profile)@, data@),
{
    if data.len() < 2 {
        return;
    }
    match version {
        ProtocolVersion::V2 => {
            settle_resolutions(version, &mut profile.resolutions, data);
            settle_leds(&mut profile.leds, data);
            assert(profile@ =~= with_settings(version, old(profile)@, data@));
        },
        ProtocolVersion::V3 => {
            settle_resolutions(version, &mut profile.resolutions, data);
            assert(profile@ =~= with_settings(version, old(profile)@, data@));
        },
        _ => {},
    }
}

/// The request for the settings; versions 1 and 4 have none.
pub open spec fn settings_query(version: ProtocolVersion) -> Option<ReportModel> {
    match version {
        ProtocolVersion::V2 => Some(ReportModel::output(STEELSERIES_ID_SETTINGS, 64)),
        ProtocolVersion::V3 => Some(ReportModel::output(STEELSERIES_ID_SETTINGS_PROTOCOL3, 64)),
        _ => None,
    }
}

/// The request for the firmware version; version 4 has none.
pub open spec fn firmware_query(version: ProtocolVersion) -> Option<ReportModel> {
    match version {
        ProtocolVersion::V1 => Some(ReportModel::output(STEELSERIES_ID_FIRMWARE_PROTOCOL1, 32)),
        ProtocolVersion::V2 => Some(ReportModel::output(STEELSERIES_ID_FIRMWARE_PROTOCOL2, 64)),
        ProtocolVersion::V3 => Some(ReportModel::output(STEELSERIES_ID_FIRMWARE_PROTOCOL3, 64)),
        ProtocolVersion::V4 => None,
    }
}

/// The firmware version that a device reports; empty if it does not.
pub open spec fn firmware_text(data: Seq<u8>) -> Seq<char> {
    if data.len() < 2 {
        Seq::empty()
    } else {
        text::decimal(data[1] as nat) + "."@ + text::decimal(data[0] as nat)
    }
}

/// The firmware version that a device reports; empty if it does not.
pub fn format_firmware(data: &[u8]) -> (r: String)
    ensures
        r@ == firmware_text(data@),
{
    let mut s = String::new();
    if data.len() >= 2 {
        text::push_decimal(&mut s, data[1] as u64);
        s.append(".");
        text::push_decimal(&mut s, data[0] as u64);
        assert(s@ =~= firmware_text(data@));
    }
    assert(s@ =~= firmware_text(data@));
    s
}

/// What came of a request.
#[derive(Debug)]
pub enum SteelseriesReply {
    /// It could not be sent.
    Unsent,
    /// It was sent, and nothing came back.
    Silent,
    Data(Vec<u8>),
}

/// The contents of a [`SteelseriesReply`].
pub enum ReplyModel {
    Unsent,
    Silent,
    Data(Seq<u8>),
}

impl View for SteelseriesReply {
    type V = ReplyModel;

    open spec fn view(&self) -> ReplyModel {
        match self {
            SteelseriesReply::Unsent => ReplyModel::Unsent,
            SteelseriesReply::Silent => ReplyModel::Silent,
            SteelseriesReply::Data(v) => ReplyModel::Data(v@),
        }
    }
}

/// What is to be read next.
#[derive(Debug, Clone, Copy, PartialEq, Eq, Structural)]
pub enum SteelseriesLoadPhase {
    Settings,
    Firmware,
    Done,
}

/// How far the loading of a device has come.
#[derive(Debug, Clone, Copy)]
pub struct SteelseriesLoad {
    pub version: ProtocolVersion,
    pub phase: SteelseriesLoadPhase,
}

/// A loading, with what it fills in.
#[verifier::ext_equal]
pub struct Loading {
    pub version: ProtocolVersion,
    pub phase: SteelseriesLoadPhase,
    pub info: DeviceModel,
}

impl Loading {
    /// Before anything was sent: the device has one profile, with defaults.
    pub open spec fn started(version: ProtocolVersion, info: DeviceModel) -> Loading {
        let built = DeviceModel {
            profiles: seq![default_profile(version, info.driver_config)],
            ..info
        };
        if settings_query(version) is Some {
            Loading { version, phase: SteelseriesLoadPhase::Settings, info: built }
        } else {
            Loading { version, phase: SteelseriesLoadPhase::Settings, info: built }.past_settings()
        }
    }

    /// Once the settings were read, or need not be.
    pub open spec fn past_settings(self) -> Loading {
        if firmware_query(self.version) is Some {
            Loading { phase: SteelseriesLoadPhase::Firmware, ..self }
        } else {
            Loading {
                phase: SteelseriesLoadPhase::Done,
                info: DeviceModel { firmware_version: Seq::empty(), ..self.info },
                ..self
            }
        }
    }

    /// The next request; `None` at the end.
    pub open spec fn query(self) -> Option<ReportModel> {
        match self.phase {
            SteelseriesLoadPhase::Settings => settings_query(self.version),
            SteelseriesLoadPhase::Firmware => firmware_query(self.version),
            SteelseriesLoadPhase::Done => None,
        }
    }

    /// After what came of a request. Nothing has to come: the defaults stand.
    pub open spec fn after(self, reply: ReplyModel) -> Loading {
        match self.phase {
            SteelseriesLoadPhase::Settings => {
                let info = match reply {
                    ReplyModel::Data(data) => DeviceModel {
                        profiles: self.info.profiles.update(
                            0,
                            with_settings(self.version, self.info.profiles[0], data),
                        ),
                        ..self.info
                    },
                    _ => self.info,
                };
                Loading { info, ..self }.past_settings()
            },
            SteelseriesLoadPhase::Firmware => Loading {
                phase: SteelseriesLoadPhase::Done,
                info: match reply {
                    ReplyModel::Unsent => self.info,
                    ReplyModel::Silent => DeviceModel {
                        firmware_version: Seq::empty(),
                        ..self.info
                    },
                    ReplyModel::Data(data) => DeviceModel {
                        firmware_version: firmware_text(data),
                        ..self.info
                    },
                },
                ..self
            },
            SteelseriesLoadPhase::Done => self,
        }
    }

    /// What holds of every state.
    pub open spec fn consistent(self) -> bool {
        self.phase is Settings ==> self.info.profiles.len() == 1 && settings_query(
            self.version,
        ) is Some
    }
}

impl SteelseriesLoad {
    /// The loading with what it fills in.
    pub open spec fn with(self, info: DeviceModel) -> Loading {
        Loading { version: self.version, phase: self.phase, info }
    }

    fn pass_settings(&mut self, info: &mut DeviceInfo)
        ensures
            final(self).with(final(info)@) == old(self).with(old(info)@).past_settings(),
    {
        if self.version == ProtocolVersion::V4 {
            self.phase = SteelseriesLoadPhase::Done;
            info.firmware_version = String::new();
            assert(info@ =~= (DeviceModel { firmware_version: Seq::empty(), ..old(info)@ }));
        } else {
            self.phase = SteelseriesLoadPhase::Firmware;
        }
    }

    /// The next request; `None` at the end.
    pub fn request(&self) -> (r: Option<Report>)
        ensures
            forall|info: DeviceModel|
                (#[trigger] self.with(info)).query() == match r {
                    Some(q) => Some(q@),
                    None => None,
                },
    {
        match self.phase {
            SteelseriesLoadPhase::Settings => match self.version {
                ProtocolVersion::V2 => Some(
                    Report::output(STEELSERIES_ID_SETTINGS, STEELSERIES_REPORT_SIZE),
                ),
                ProtocolVersion::V3 => Some(
                    Report::output(STEELSERIES_ID_SETTINGS_PROTOCOL3, STEELSERIES_REPORT_SIZE),
                ),
                _ => None,
            },
            SteelseriesLoadPhase::Firmware => match self.version {
                ProtocolVersion::V1 => Some(
                    Report::output(
                        STEELSERIES_ID_FIRMWARE_PROTOCOL1,
                        STEELSERIES_REPORT_SIZE_SHORT,
                    ),
                ),
                ProtocolVersion::V2 => Some(
                    Report::output(STEELSERIES_ID_FIRMWARE_PROTOCOL2, STEELSERIES_REPORT_SIZE),
                ),
                ProtocolVersion::V3 => Some(
                    Report::output(STEELSERIES_ID_FIRMWARE_PROTOCOL3, STEELSERIES_REPORT_SIZE),
                ),
                ProtocolVersion::V4 => None,
            },
            SteelseriesLoadPhase::Done => None,
        }
    }

    /// Takes what came of the last request.
    pub fn replied(&mut self, info: &mut DeviceInfo, reply: &SteelseriesReply)
        requires
            old(self).with(old(info)@).consistent(),
        ensures
            final(self).with(final(info)@) == old(self).with(old(info)@).after(reply@),
            final(self).with(final(info)@).consistent(),
    {
        match self.phase {
            SteelseriesLoadPhase::Settings => {
                if let SteelseriesReply::Data(data) = reply {
                    proof {
                        device::lemma_profiles_view_update(info.profiles@, 0);
                    }
                    assert(info@.profiles[0] == info.profiles@[0]@);
                    apply_settings(self.version, &mut info.profiles[0], data.as_slice());
                    assert(info@ =~= (DeviceModel {
                        profiles: old(info)@.profiles.update(
                            0,
                            with_settings(self.version, old(info)@.profiles[0], data@),
                        ),
                        ..old(info)@
                    }));
                }
                self.pass_settings(info);
            },
            SteelseriesLoadPhase::Firmware => {
                match reply {
                    SteelseriesReply::Unsent => {},
                    SteelseriesReply::Silent => {
                        info.firmware_version = String::new();
                        assert(info@ =~= (DeviceModel {
                            firmware_version: Seq::empty(),
                            ..old(info)@
                        }));
                    },
                    SteelseriesReply::Data(data) => {
                        info.firmware_version = format_firmware(data.as_slice());
                    },
                }
                self.phase = SteelseriesLoadPhase::Done;
            },
            SteelseriesLoadPhase::Done => {},
        }
    }
}

impl SteelseriesDriver {
    pub fn new() -> (r: Self)
        ensures
            r.version is None,
            r.quirks == (DeviceQuirks { is_senseiraw: false, is_rival100: false }),
    {
        SteelseriesDriver { version: None, quirks: DeviceQuirks::default() }
    }

    /// Takes over what the database says of a device, gives it its profile and
    /// begins to load it. A device without a known version is left alone.
    pub fn load_profiles(&mut self, info: &mut DeviceInfo) -> (r: Result<
        SteelseriesLoad,
        SteelseriesError,
    >)
        requires
            old(info)@.driver_config.device_version matches Some(raw) ==> ProtocolVersion::numbered(
                raw,
            ) is Some ==> (old(info)@.driver_config.dpi_range matches Some(v) ==> v.step > 0),
        ensures
            match r {
                Ok(load) => {
                    let config = old(info)@.driver_config;
                    &&& config.device_version matches Some(raw)
                    &&& ProtocolVersion::numbered(raw) matches Some(version)
                    &&& final(self).version == Some(version)
                    &&& final(self).quirks == DeviceQuirks::of(config)
                    &&& load.with(final(info)@) == Loading::started(version, old(info)@)
                    &&& load.with(final(info)@).consistent()
                },
                Err(e) => {
                    &&& *final(self) == *old(self)
                    &&& final(info)@ == old(info)@
                    &&& match old(info)@.driver_config.device_version {
                        None => e == SteelseriesError::VersionMissing,
                        Some(raw) => ProtocolVersion::numbered(raw) is None && e
                            == SteelseriesError::UnsupportedVersion { version: raw },
                    }
                },
            },
    {
        let raw: u32 = match info.driver_config.device_version {
            Some(raw) => raw,
            None => {
                return Err(SteelseriesError::VersionMissing);
            },
        };
        let version = match ProtocolVersion::try_from(raw) {
            Ok(v) => v,
            Err(e) => {
                return Err(e);
            },
        };
        self.version = Some(version);
        self.quirks = DeviceQuirks::from_config(&info.driver_config);
        let senseiraw = self.quirks.is_senseiraw;
        let buttons: u32 = match info.driver_config.buttons {
            Some(n) => n,
            None => 0,
        };
        let leds: u32 = match info.driver_config.leds {
            Some(n) => n,
            None => 0,
        };
        let profile = ProfileInfo {
            index: 0,
            name: "Profile 0".to_owned(),
            is_active: true,
            is_enabled: true,
            is_dirty: false,
            report_rate: 1000,
            report_rates: vec![125, 250, 500, 1000],
            angle_snapping: -1,
            debounce: -1,
            debounces: Vec::new(),
            capabilities: Vec::new(),
            resolutions: build_resolutions(&info.driver_config.dpi_range),
            buttons: build_buttons(buttons, senseiraw),
            leds: build_leds(version, leds, senseiraw),
        };
        assert(profile@ =~= default_profile(version, old(info)@.driver_config));
        let mut profiles: Vec<ProfileInfo> = Vec::new();
        profiles.push(profile);
        info.profiles = profiles;
        assert(info@ =~= (DeviceModel {
            profiles: seq![default_profile(version, old(info)@.driver_config)],
            ..old(info)@
        })) by {
            assert(info@.profiles =~= seq![default_profile(version, old(info)@.driver_config)]);
        }
        let mut load = SteelseriesLoad { version, phase: SteelseriesLoadPhase::Settings };
        if version == ProtocolVersion::V1 || version == ProtocolVersion::V4 {
            load.pass_settings(info);
        }
        Ok(load)
    }
}

} // verus!
