//! Profiles read from reports, and reports made from profiles.

use crate::engine::device;
use crate::engine::device::{
    ActionType, ButtonInfo, ButtonModel, Color, DeviceInfo, DeviceModel, Dpi, LedInfo, LedMode,
    LedModel, ProfileInfo, ProfileModel, ResolutionInfo, ResolutionModel, RgbColor,
};
use crate::hal::logitech_g600::action;
use crate::hal::logitech_g600::action::{
    decode_button, dpi_range_list, encode_button, hz_to_raw, nearest_raw, raw_to_dpi, raw_to_hz,
    report_rate_list,
};
use crate::hal::logitech_g600::report::{ActiveProfileReport, ProfileReport, ReportModel};
use vstd::prelude::*;

verus! {

pub const NUM_PROFILES: usize = 3;

pub const REPORT_ID_ACTIVE: u8 = 0xF0;

pub const LED_SOLID: u8 = 0x00;

pub const LED_BREATHE: u8 = 0x01;

pub const LED_CYCLE: u8 = 0x02;

/// What was read from the device.
#[derive(Debug, Clone, Copy)]
pub struct G600Data {
    pub profile_reports: [Option<ProfileReport>; 3],
    pub active: ActiveProfileReport,
}

/// Driver of the Logitech G600.
#[derive(Debug, Clone, Copy)]
pub struct LG600Driver {
    /// What was read from the device, once it was probed.
    pub data: Option<G600Data>,
}

/// Why a driver can do nothing.
#[derive(Debug, Clone, Copy, PartialEq, Eq, Structural)]
pub enum G600Error {
    NotProbed,
    ReportMissing { profile: usize },
}

/// The report that holds the profile at `i`.
pub open spec fn profile_report_id(i: int) -> u8 {
    (0xF3 + i) as u8
}

/// The resolution at slot `j`.
pub open spec fn loaded_resolution(m: ReportModel, j: int, active: bool) -> ResolutionModel {
    ResolutionModel {
        index: j as u32,
        dpi: Dpi::Unified((m.dpi[j] * 50) as u32),
        dpi_list: device::stepped_range(200, 8200, 50),
        capabilities: Seq::empty(),
        is_active: active,
        is_default: m.dpi[j] != 0 && m.dpi_default == j + 1,
        is_disabled: m.dpi[j] == 0,
    }
}

/// The action of the button at `b`: 0 to 19 are the buttons, 21 to 40 the
/// buttons while G-Shift is held.
pub open spec fn loaded_action(m: ReportModel, b: int) -> (ActionType, u32) {
    if b < 20 {
        action::decoded(m.buttons[b])
    } else if b == 20 {
        (ActionType::NoAction, 0)
    } else {
        action::decoded(m.g_shift_buttons[b - 21])
    }
}

/// The button at `b`.
pub open spec fn loaded_button(m: ReportModel, b: int) -> ButtonModel {
    ButtonModel {
        index: b as u32,
        action_type: loaded_action(m, b).0,
        action_types: seq![0u32, 1, 2, 4],
        mapping_value: loaded_action(m, b).1,
        macro_entries: Seq::empty(),
    }
}

/// The LED.
pub open spec fn loaded_led(m: ReportModel) -> LedModel {
    LedModel {
        index: 0,
        mode: if m.led_effect == LED_BREATHE {
            LedMode::Breathing
        } else if m.led_effect == LED_CYCLE {
            LedMode::Cycle
        } else if m.led_red == 0 && m.led_green == 0 && m.led_blue == 0 {
            LedMode::Off
        } else {
            LedMode::Solid
        },
        modes: seq![LedMode::Off, LedMode::Solid, LedMode::Breathing, LedMode::Cycle],
        color: Color::of_rgb(RgbColor { r: m.led_red, g: m.led_green, b: m.led_blue }),
        secondary_color: Color::black(),
        tertiary_color: Color::black(),
        color_depth: 0,
        effect_duration: if m.led_effect == LED_BREATHE || m.led_effect == LED_CYCLE {
            (m.led_duration * 1000) as u32
        } else {
            0
        },
        brightness: 255,
    }
}

/// The profile at `i` as its report describes it.
pub open spec fn loaded_profile(m: ReportModel, i: int, active: ActiveProfileReport) -> ProfileModel {
    let is_active = active.packed / 16 == i;
    ProfileModel {
        index: i as u32,
        name: Seq::empty(),
        is_active,
        is_enabled: true,
        is_dirty: false,
        report_rate: action::hz_of_raw(m.frequency) as u32,
        report_rates: action::report_rates(),
        angle_snapping: -1i32,
        debounce: -1i32,
        debounces: Seq::empty(),
        capabilities: Seq::empty(),
        resolutions: Seq::new(
            4,
            |j: int| loaded_resolution(m, j, is_active && active.packed / 2 % 4 == j),
        ),
        buttons: Seq::new(41, |b: int| loaded_button(m, b)),
        leds: seq![loaded_led(m)],
    }
}

/// How many reports there are before the first that is missing.
pub open spec fn reports_read(data: G600Data) -> int {
    if data.profile_reports[0] is None {
        0
    } else if data.profile_reports[1] is None {
        1
    } else if data.profile_reports[2] is None {
        2
    } else {
        3
    }
}

/// The profiles whose reports there are, up to the first that is missing.
pub open spec fn loaded_profiles(data: G600Data) -> Seq<ProfileModel> {
    Seq::new(
        reports_read(data) as nat,
        |i: int| loaded_profile(data.profile_reports[i]->0@, i, data.active),
    )
}

fn load_resolutions(report: &ProfileReport, active: Option<u8>) -> (r: Vec<ResolutionInfo>)
    ensures
        device::resolutions_view(r@) == Seq::new(
            4,
            |j: int| loaded_resolution(report@, j, active is Some && active->0 == j),
        ),
{
    let mut r: Vec<ResolutionInfo> = Vec::new();
    let mut j: usize = 0;
    while j < 4
        invariant
            j <= 4,
            r@.len() == j,
            forall|k: int|
                0 <= k < j ==> (#[trigger] r@[k])@ == loaded_resolution(
                    report@,
                    k,
                    active is Some && active->0 == k,
                ),
        decreases 4 - j,
    {
        let raw: u8 = report.dpi[j];
        let is_active = match active {
            Some(a) => a as usize == j,
            None => false,
        };
        let item = ResolutionInfo {
            index: j as u32,
            dpi: Dpi::Unified(raw_to_dpi(raw)),
            dpi_list: dpi_range_list(),
            capabilities: Vec::new(),
            is_active,
            is_default: raw != 0 && report.dpi_default as usize == j + 1,
            is_disabled: raw == 0,
        };
        assert(item@ =~= loaded_resolution(report@, j as int, active is Some && active->0 == j));
        r.push(item);
        j += 1;
    }
    assert(device::resolutions_view(r@) =~= Seq::new(
        4,
        |j: int| loaded_resolution(report@, j, active is Some && active->0 == j),
    ));
    r
}

fn load_buttons(report: &ProfileReport) -> (r: Vec<ButtonInfo>)
    ensures
        device::buttons_view(r@) == Seq::new(41, |b: int| loaded_button(report@, b)),
{
    let mut r: Vec<ButtonInfo> = Vec::new();
    let mut b: usize = 0;
    while b < 41
        invariant
            b <= 41,
            r@.len() == b,
            forall|k: int| 0 <= k < b ==> (#[trigger] r@[k])@ == loaded_button(report@, k),
        decreases 41 - b,
    {
        let (action_type, mapping_value) = if b < 20 {
            decode_button(&report.buttons[b])
        } else if b == 20 {
            (ActionType::NoAction, 0)
        } else {
            decode_button(&report.g_shift_buttons[b - 21])
        };
        let item = ButtonInfo {
            index: b as u32,
            action_type,
            action_types: vec![
                ActionType::NoAction.to_u32(),
                ActionType::Button.to_u32(),
                ActionType::Special.to_u32(),
                ActionType::Macro.to_u32(),
            ],
            mapping_value,
            macro_entries: Vec::new(),
        };
        assert(item@ =~= loaded_button(report@, b as int));
        r.push(item);
        b += 1;
    }
    assert(device::buttons_view(r@) =~= Seq::new(41, |b: int| loaded_button(report@, b)));
    r
}

fn load_led(report: &ProfileReport) -> (r: LedInfo)
    ensures
        r@ == loaded_led(report@),
{
    let mode = if report.led_effect == LED_BREATHE {
        LedMode::Breathing
    } else if report.led_effect == LED_CYCLE {
        LedMode::Cycle
    } else if report.led_red == 0 && report.led_green == 0 && report.led_blue == 0 {
        LedMode::Off
    } else {
        LedMode::Solid
    };
    let effect_duration: u32 = if report.led_effect == LED_BREATHE || report.led_effect
        == LED_CYCLE {
        report.led_duration as u32 * 1000
    } else {
        0
    };
    let r = LedInfo {
        index: 0,
        mode,
        modes: vec![LedMode::Off, LedMode::Solid, LedMode::Breathing, LedMode::Cycle],
        color: Color::from_rgb(
            RgbColor { r: report.led_red, g: report.led_green, b: report.led_blue },
        ),
        secondary_color: Color::default(),
        tertiary_color: Color::default(),
        color_depth: 0,
        effect_duration,
        brightness: 255,
    };
    assert(r@ =~= loaded_led(report@));
    r
}

/// A profile as its report describes it.
pub fn load_profile(report: &ProfileReport, i: usize, active: &ActiveProfileReport) -> (r: ProfileInfo)
    requires
        i < 3,
    ensures
        r@ == loaded_profile(report@, i as int, *active),
{
    let is_active = active.profile() as usize == i;
    let resolution: Option<u8> = if is_active {
        Some(active.resolution())
    } else {
        None
    };
    let led = load_led(report);
    let r = ProfileInfo {
        index: i as u32,
        name: String::new(),
        is_active,
        is_enabled: true,
        is_dirty: false,
        report_rate: raw_to_hz(report.frequency),
        report_rates: report_rate_list(),
        angle_snapping: -1,
        debounce: -1,
        debounces: Vec::new(),
        capabilities: Vec::new(),
        resolutions: load_resolutions(report, resolution),
        buttons: load_buttons(report),
        leds: vec![led],
    };
    assert(r@ =~~= loaded_profile(report@, i as int, *active));
    r
}

/// The DPI value of a resolution, that of the first axis where there are two;
/// 0 if it is not known.
pub open spec fn dpi_value(dpi: Dpi) -> u32 {
    match dpi {
        Dpi::Unified(v) => v,
        Dpi::Separate { x, y } => x,
        Dpi::Unknown => 0,
    }
}

/// The byte for a resolution; 0 for one that is disabled.
pub open spec fn dpi_byte(r: ResolutionModel) -> u8 {
    if r.is_disabled || dpi_value(r.dpi) == 0 {
        0
    } else {
        action::raw_of_dpi(dpi_value(r.dpi)) as u8
    }
}

/// A report with a resolution written into it.
pub open spec fn with_resolution(m: ReportModel, r: ResolutionModel) -> ReportModel {
    if r.index >= 4 {
        m
    } else {
        ReportModel {
            dpi: m.dpi.update(r.index as int, dpi_byte(r)),
            dpi_default: if r.is_default {
                (r.index + 1) as u8
            } else {
                m.dpi_default
            },
            ..m
        }
    }
}

/// A report with the first `n` resolutions written into it.
pub open spec fn with_resolutions(m: ReportModel, resolutions: Seq<ResolutionModel>, n: nat) -> ReportModel
    decreases n,
{
    if n == 0 {
        m
    } else {
        with_resolution(with_resolutions(m, resolutions, (n - 1) as nat), resolutions[n - 1])
    }
}

/// The active one among the first `n` resolutions, the last if there are
/// several, and the first slot if there is none.
pub open spec fn active_slot(resolutions: Seq<ResolutionModel>, n: nat) -> u8
    decreases n,
{
    if n == 0 {
        0
    } else if resolutions[n - 1].index < 4 && resolutions[n - 1].is_active {
        resolutions[n - 1].index as u8
    } else {
        active_slot(resolutions, (n - 1) as nat)
    }
}

/// A report with a button written into it.
pub open spec fn with_button(m: ReportModel, b: ButtonModel) -> ReportModel {
    let entry = action::encoded(b.action_type, b.mapping_value);
    if b.index < 20 {
        ReportModel { buttons: m.buttons.update(b.index as int, entry), ..m }
    } else if 21 <= b.index <= 40 {
        ReportModel { g_shift_buttons: m.g_shift_buttons.update(b.index - 21, entry), ..m }
    } else {
        m
    }
}

/// A report with the first `n` buttons written into it.
pub open spec fn with_buttons(m: ReportModel, buttons: Seq<ButtonModel>, n: nat) -> ReportModel
    decreases n,
{
    if n == 0 {
        m
    } else {
        with_button(with_buttons(m, buttons, (n - 1) as nat), buttons[n - 1])
    }
}

/// A report with an LED written into it. A light that is off is a black steady
/// one, and the colour under G-Shift is the same.
pub open spec fn with_led(m: ReportModel, l: LedModel) -> ReportModel {
    let c = if l.mode is Off {
        RgbColor { r: 0, g: 0, b: 0 }
    } else {
        l.color.rgb()
    };
    ReportModel {
        led_effect: match l.mode {
            LedMode::Breathing => LED_BREATHE,
            LedMode::Cycle => LED_CYCLE,
            _ => LED_SOLID,
        },
        led_red: c.r,
        led_green: c.g,
        led_blue: c.b,
        led_duration: if l.mode is Breathing || l.mode is Cycle {
            if l.effect_duration / 1000 > 15 {
                15
            } else {
                (l.effect_duration / 1000) as u8
            }
        } else {
            m.led_duration
        },
        g_shift_color: seq![c.r, c.g, c.b],
        ..m
    }
}

/// A report with a profile written into it.
pub open spec fn updated_report(m: ReportModel, p: ProfileModel) -> ReportModel {
    let timed = ReportModel { frequency: action::raw_of_hz(p.report_rate) as u8, ..m };
    let sensed = with_resolutions(timed, p.resolutions, p.resolutions.len());
    let bound = with_buttons(sensed, p.buttons, p.buttons.len());
    if p.leds.len() > 0 {
        with_led(bound, p.leds[0])
    } else {
        bound
    }
}

/// The report that makes a resolution active.
pub open spec fn resolution_report(slot: u8) -> Seq<u8> {
    seq![REPORT_ID_ACTIVE, (0x40 + 2 * slot) as u8, 0u8, 0u8]
}

fn write_resolutions(report: &mut ProfileReport, p: &ProfileInfo) -> (active: u8)
    ensures
        final(report)@ == with_resolutions(old(report)@, p@.resolutions, p@.resolutions.len()),
        active == active_slot(p@.resolutions, p@.resolutions.len()),
        active < 4,
{
    let mut active: u8 = 0;
    assert(p@.resolutions.len() == p.resolutions@.len());
    let mut i: usize = 0;
    while i < p.resolutions.len()
        invariant
            i <= p.resolutions@.len(),
            p@.resolutions.len() == p.resolutions@.len(),
            report@ == with_resolutions(old(report)@, p@.resolutions, i as nat),
            active == active_slot(p@.resolutions, i as nat),
            active < 4,
        decreases p.resolutions@.len() - i,
    {
        assert(p@.resolutions[i as int] == p.resolutions@[i as int]@);
        let res = &p.resolutions[i];
        let ghost before = report@;
        if res.index < 4 {
            let slot: usize = res.index as usize;
            let value: u32 = match res.dpi {
                Dpi::Unified(v) => v,
                Dpi::Separate { x, y: _ } => x,
                Dpi::Unknown => 0,
            };
            report.dpi[slot] = if res.is_disabled || value == 0 {
                0
            } else {
                nearest_raw(value)
            };
            if res.is_default {
                report.dpi_default = (slot + 1) as u8;
            }
            if res.is_active {
                active = slot as u8;
            }
            assert(report@ =~= with_resolution(before, res@));
        }
        i += 1;
    }
    active
}

fn write_buttons(report: &mut ProfileReport, p: &ProfileInfo)
    ensures
        final(report)@ == with_buttons(old(report)@, p@.buttons, p@.buttons.len()),
{
    assert(p@.buttons.len() == p.buttons@.len());
    let mut i: usize = 0;
    while i < p.buttons.len()
        invariant
            i <= p.buttons@.len(),
            p@.buttons.len() == p.buttons@.len(),
            report@ == with_buttons(old(report)@, p@.buttons, i as nat),
        decreases p.buttons@.len() - i,
    {
        assert(p@.buttons[i as int] == p.buttons@[i as int]@);
        let btn = &p.buttons[i];
        let ghost before = report@;
        let b: u32 = btn.index;
        if b < 20 {
            report.buttons[b as usize] = encode_button(btn.action_type, btn.mapping_value);
        } else if 21 <= b && b <= 40 {
            report.g_shift_buttons[b as usize - 21] = encode_button(
                btn.action_type,
                btn.mapping_value,
            );
        }
        assert(report@ =~= with_button(before, btn@));
        i += 1;
    }
}

fn write_led(report: &mut ProfileReport, led: &LedInfo)
    ensures
        final(report)@ == with_led(old(report)@, led@),
{
    let mut c = led.color.to_rgb();
    report.led_effect = LED_SOLID;
    match led.mode {
        LedMode::Off => {
            c = RgbColor { r: 0, g: 0, b: 0 };
        },
        LedMode::Breathing => {
            report.led_effect = LED_BREATHE;
        },
        LedMode::Cycle => {
            report.led_effect = LED_CYCLE;
        },
        _ => {},
    }
    if report.led_effect != LED_SOLID {
        let seconds: u32 = led.effect_duration / 1000;
        report.led_duration = if seconds > 15 {
            15
        } else {
            seconds as u8
        };
    }
    report.led_red = c.r;
    report.led_green = c.g;
    report.led_blue = c.b;
    report.g_shift_color = [c.r, c.g, c.b];
    assert(report@ =~= with_led(old(report)@, led@));
}

/// Writes a profile into a report, and says which resolution is active.
pub fn update_report(report: &mut ProfileReport, p: &ProfileInfo) -> (active: u8)
    ensures
        final(report)@ == updated_report(old(report)@, p@),
        active == active_slot(p@.resolutions, p@.resolutions.len()),
        active < 4,
{
    report.frequency = hz_to_raw(p.report_rate);
    let active = write_resolutions(report, p);
    write_buttons(report, p);
    assert(p@.leds.len() == p.leds@.len());
    if p.leds.len() > 0 {
        assert(p@.leds[0] == p.leds@[0]@);
        write_led(report, &p.leds[0]);
    }
    active
}

/// The report that a profile is written into: the one that was read, or a
/// blank one.
pub open spec fn base_report(data: G600Data, i: int) -> ReportModel {
    match data.profile_reports[i] {
        Some(r) => r@,
        None => ReportModel::blank(profile_report_id(i)),
    }
}

/// The reports that committing a profile sends.
pub open spec fn committed(data: G600Data, p: ProfileModel) -> Seq<Seq<u8>> {
    if !p.is_dirty || p.index >= 3 {
        Seq::empty()
    } else {
        let report = updated_report(base_report(data, p.index as int), p).bytes();
        if p.is_active {
            seq![report, resolution_report(active_slot(p.resolutions, p.resolutions.len()))]
        } else {
            seq![report]
        }
    }
}

/// The contents of a list of reports.
pub open spec fn reports_view(s: Seq<Vec<u8>>) -> Seq<Seq<u8>> {
    s.map_values(|v: Vec<u8>| v@)
}

impl LG600Driver {
    pub fn new() -> (r: Self)
        ensures
            r.data is None,
    {
        LG600Driver { data: None }
    }

    /// Takes over what was read from the device.
    pub fn probed(&mut self, active: &[u8; 4], reports: &[[u8; 154]; 3])
        ensures
            final(self).data matches Some(data) && data.active == (ActiveProfileReport {
                id: active[0],
                packed: active[1],
                unknown3: active[2],
                unknown4: active[3],
            }) && forall|i: int|
                0 <= i < 3 ==> (#[trigger] data.profile_reports[i] matches Some(r) && r@
                    == ReportModel::of_bytes(reports[i]@)),
    {
        self.data = Some(
            G600Data {
                profile_reports: [
                    Some(ProfileReport::from_bytes(&reports[0])),
                    Some(ProfileReport::from_bytes(&reports[1])),
                    Some(ProfileReport::from_bytes(&reports[2])),
                ],
                active: ActiveProfileReport::from_bytes(active),
            },
        );
    }

    /// Replaces the profiles of a device by those that were read from it.
    pub fn load_profiles(&self, info: &mut DeviceInfo) -> (r: Result<(), G600Error>)
        ensures
            match self.data {
                None => r == Err::<(), G600Error>(G600Error::NotProbed) && final(info)@ == old(
                    info,
                )@,
                Some(data) => {
                    &&& final(info)@ == (DeviceModel {
                        profiles: loaded_profiles(data),
                        ..old(info)@
                    })
                    &&& r == if reports_read(data) == 3 {
                        Ok::<(), G600Error>(())
                    } else {
                        Err(G600Error::ReportMissing { profile: reports_read(data) as usize })
                    }
                },
            },
    {
        let data = match &self.data {
            Some(d) => d,
            None => {
                return Err(G600Error::NotProbed);
            },
        };
        let mut profiles: Vec<ProfileInfo> = Vec::new();
        let mut missing: Option<usize> = None;
        let mut i: usize = 0;
        while i < NUM_PROFILES && missing.is_none()
            invariant
                i <= 3,
                i <= reports_read(*data),
                missing is Some ==> i == reports_read(*data) && missing == Some(i) && i < 3,
                profiles@.len() == i,
                forall|k: int|
                    0 <= k < i ==> (#[trigger] profiles@[k])@ == loaded_profile(
                        data.profile_reports[k]->0@,
                        k,
                        data.active,
                    ),
            decreases
                3 - i + (if missing is None {
                    1int
                } else {
                    0
                }),
        {
            match &data.profile_reports[i] {
                Some(report) => {
                    profiles.push(load_profile(report, i, &data.active));
                    i += 1;
                },
                None => {
                    missing = Some(i);
                },
            }
        }
        info.profiles = profiles;
        assert(info@.profiles =~= loaded_profiles(*data));
        match missing {
            None => Ok(()),
            Some(profile) => Err(G600Error::ReportMissing { profile }),
        }
    }

    /// Writes a changed profile into its report, and gives the reports to send:
    /// the profile, and, if it is the active one, its resolution. Profiles that
    /// the device does not have are passed over.
    pub fn commit_profile(&mut self, p: &ProfileInfo) -> (r: Result<Vec<Vec<u8>>, G600Error>)
        ensures
            match old(self).data {
                None => r matches Err(e) && e == G600Error::NotProbed && final(self).data is None,
                Some(data) => {
                    &&& r matches Ok(sent) && reports_view(sent@) == committed(data, p@)
                    &&& final(self).data matches Some(now) && now.active == data.active
                        && forall|i: int|
                        0 <= i < 3 ==> if p@.is_dirty && p@.index == i {
                            #[trigger] now.profile_reports[i] matches Some(x) && x@
                                == updated_report(base_report(data, i), p@)
                        } else {
                            now.profile_reports[i] == data.profile_reports[i]
                        }
                },
            },
    {
        let mut data = match self.data {
            Some(d) => d,
            None => {
                return Err(G600Error::NotProbed);
            },
        };
        let mut sent: Vec<Vec<u8>> = Vec::new();
        if !p.is_dirty || p.index >= 3 {
            assert(reports_view(sent@) =~= committed(data, p@));
            return Ok(sent);
        }
        let at: usize = p.index as usize;
        let mut report = match data.profile_reports[at] {
            Some(r) => r,
            None => {
                let mut r = ProfileReport::new();
                r.id = 0xF3 + p.index as u8;
                assert(r@ =~= ReportModel::blank(profile_report_id(at as int)));
                r
            },
        };
        assert(report@ == base_report(data, at as int));
        let active = update_report(&mut report, p);
        let bytes = report.into_bytes();
        sent.push(crate::bytes::slice(bytes.as_slice(), 0, 154));
        assert(sent@[0]@ =~= report@.bytes());
        if p.is_active {
            let last: Vec<u8> = vec![REPORT_ID_ACTIVE, 0x40 + 2 * active, 0, 0];
            assert(last@ =~= resolution_report(active));
            sent.push(last);
        }
        assert(reports_view(sent@) =~= committed(data, p@));
        data.profile_reports[at] = Some(report);
        self.data = Some(data);
        Ok(sent)
    }
}

/// The feature report that asks for the active profile.
pub fn active_query() -> (r: [u8; 4])
    ensures
        r@ == seq![REPORT_ID_ACTIVE, 0u8, 0, 0],
{
    let r: [u8; 4] = [REPORT_ID_ACTIVE, 0, 0, 0];
    assert(r@ =~= seq![REPORT_ID_ACTIVE, 0u8, 0, 0]);
    r
}

/// The feature report that asks for the profile at `i`.
pub fn profile_query(i: usize) -> (r: [u8; 154])
    requires
        i < 3,
    ensures
        r@ == crate::bytes::padded(seq![profile_report_id(i as int)], 154),
{
    let mut r: [u8; 154] = [0u8; 154];
    r[0] = 0xF3 + i as u8;
    assert(r@ =~= crate::bytes::padded(seq![profile_report_id(i as int)], 154));
    r
}

/// Whether a profile has the shape that the device has, and holds nothing that
/// the device cannot store.
pub open spec fn storable(p: ProfileModel) -> bool {
    &&& action::report_rates().contains(p.report_rate)
    &&& p.resolutions.len() == 4
    &&& forall|j: int| 0 <= j < 4 ==> storable_resolution(#[trigger] p.resolutions[j], j)
    &&& p.buttons.len() == 41
    &&& forall|b: int|
        0 <= b < 41 ==> (#[trigger] p.buttons[b]).index == b && (b != 20 ==> action::storable(
            p.buttons[b].action_type,
            p.buttons[b].mapping_value,
        ))
    &&& p.leds.len() == 1
}

/// Whether the device can store a resolution in slot `j`.
pub open spec fn storable_resolution(r: ResolutionModel, j: int) -> bool {
    &&& r.index == j
    &&& r.dpi matches Dpi::Unified(v) && if r.is_disabled {
        v == 0
    } else {
        200 <= v <= 8200 && v % 50 == 0
    }
}

proof fn lemma_resolutions_written(m: ReportModel, resolutions: Seq<ResolutionModel>, n: nat)
    requires
        m.dpi.len() == 4,
        n <= 4,
        resolutions.len() == 4,
        forall|j: int| 0 <= j < 4 ==> (#[trigger] resolutions[j]).index == j,
    ensures
        ({
            let w = with_resolutions(m, resolutions, n);
            &&& w.dpi.len() == 4
            &&& forall|j: int| 0 <= j < n ==> #[trigger] w.dpi[j] == dpi_byte(resolutions[j])
            &&& w == (ReportModel { dpi: w.dpi, dpi_default: w.dpi_default, ..m })
            &&& forall|d: int|
                0 <= d < n && #[trigger] resolutions[d].is_default && (forall|k: int|
                    0 <= k < 4 && k != d ==> !(#[trigger] resolutions[k]).is_default)
                    ==> w.dpi_default == d + 1
        }),
    decreases n,
{
    if n > 0 {
        lemma_resolutions_written(m, resolutions, (n - 1) as nat);
        assert(resolutions[n - 1].index == n - 1);
    }
}

proof fn lemma_buttons_written(m: ReportModel, buttons: Seq<ButtonModel>, n: nat)
    requires
        m.buttons.len() == 20,
        m.g_shift_buttons.len() == 20,
        n <= 41,
        buttons.len() == 41,
        forall|b: int| 0 <= b < 41 ==> (#[trigger] buttons[b]).index == b,
    ensures
        ({
            let w = with_buttons(m, buttons, n);
            &&& w.buttons.len() == 20
            &&& w.g_shift_buttons.len() == 20
            &&& forall|b: int|
                0 <= b < n && b < 20 ==> #[trigger] w.buttons[b] == action::encoded(
                    buttons[b].action_type,
                    buttons[b].mapping_value,
                )
            &&& forall|b: int|
                0 <= b < n - 21 ==> #[trigger] w.g_shift_buttons[b] == action::encoded(
                    buttons[b + 21].action_type,
                    buttons[b + 21].mapping_value,
                )
            &&& w == (ReportModel { buttons: w.buttons, g_shift_buttons: w.g_shift_buttons, ..m })
        }),
    decreases n,
{
    if n > 0 {
        lemma_buttons_written(m, buttons, (n - 1) as nat);
        assert(buttons[n - 1].index == n - 1);
    }
}

/// What was written of a profile that the device can store is read back: the
/// rate, the resolutions, and the buttons.
pub proof fn committed_profile_reads_back(
    m: ReportModel,
    p: ProfileModel,
    i: int,
    active: ActiveProfileReport,
)
    requires
        m.well_sized(),
        storable(p),
    ensures
        ({
            let back = loaded_profile(
                ReportModel::of_bytes(updated_report(m, p).bytes()),
                i,
                active,
            );
            &&& back.report_rate == p.report_rate
            &&& forall|j: int|
                0 <= j < 4 ==> {
                    &&& (#[trigger] back.resolutions[j]).index == p.resolutions[j].index
                    &&& back.resolutions[j].dpi == p.resolutions[j].dpi
                    &&& back.resolutions[j].is_disabled == p.resolutions[j].is_disabled
                }
            &&& forall|b: int|
                0 <= b < 41 && b != 20 ==> {
                    &&& (#[trigger] back.buttons[b]).index == p.buttons[b].index
                    &&& back.buttons[b].action_type == p.buttons[b].action_type
                    &&& back.buttons[b].mapping_value == p.buttons[b].mapping_value
                }
        }),
{
    let timed = ReportModel { frequency: action::raw_of_hz(p.report_rate) as u8, ..m };
    let sensed = with_resolutions(timed, p.resolutions, 4);
    let bound = with_buttons(sensed, p.buttons, 41);
    let w = updated_report(m, p);
    action::rate_round_trip(p.report_rate);
    assert forall|j: int| 0 <= j < 4 implies (#[trigger] p.resolutions[j]).index == j by {
        assert(storable_resolution(p.resolutions[j], j));
    }
    lemma_resolutions_written(timed, p.resolutions, 4);
    lemma_buttons_written(sensed, p.buttons, 41);
    crate::hal::logitech_g600::report::report_reads_back(w);
    let back = loaded_profile(w, i, active);
    assert forall|j: int| 0 <= j < 4 implies {
        &&& (#[trigger] back.resolutions[j]).index == p.resolutions[j].index
        &&& back.resolutions[j].dpi == p.resolutions[j].dpi
        &&& back.resolutions[j].is_disabled == p.resolutions[j].is_disabled
    } by {
        assert(storable_resolution(p.resolutions[j], j));
        assert(w.dpi[j] == dpi_byte(p.resolutions[j]));
    }
    assert forall|b: int| 0 <= b < 41 && b != 20 implies {
        &&& (#[trigger] back.buttons[b]).index == p.buttons[b].index
        &&& back.buttons[b].action_type == p.buttons[b].action_type
        &&& back.buttons[b].mapping_value == p.buttons[b].mapping_value
    } by {
        action::action_round_trip(p.buttons[b].action_type, p.buttons[b].mapping_value);
        if b < 20 {
            assert(w.buttons[b] == action::encoded(
                p.buttons[b].action_type,
                p.buttons[b].mapping_value,
            ));
        } else {
            assert(w.g_shift_buttons[b - 21] == action::encoded(
                p.buttons[b - 21 + 21].action_type,
                p.buttons[b - 21 + 21].mapping_value,
            ));
        }
    }
}

/// The default resolution of a profile is read back, if there is one and it is
/// not disabled.
pub proof fn default_resolution_reads_back(
    m: ReportModel,
    p: ProfileModel,
    d: int,
    i: int,
    active: ActiveProfileReport,
)
    requires
        m.well_sized(),
        storable(p),
        0 <= d < 4,
        !p.resolutions[d].is_disabled,
        forall|j: int| 0 <= j < 4 ==> (#[trigger] p.resolutions[j]).is_default == (j == d),
    ensures
        ({
            let back = loaded_profile(
                ReportModel::of_bytes(updated_report(m, p).bytes()),
                i,
                active,
            );
            forall|j: int| 0 <= j < 4 ==> (#[trigger] back.resolutions[j]).is_default == (j == d)
        }),
{
    let timed = ReportModel { frequency: action::raw_of_hz(p.report_rate) as u8, ..m };
    let sensed = with_resolutions(timed, p.resolutions, 4);
    let w = updated_report(m, p);
    assert forall|j: int| 0 <= j < 4 implies (#[trigger] p.resolutions[j]).index == j by {
        assert(storable_resolution(p.resolutions[j], j));
    }
    lemma_resolutions_written(timed, p.resolutions, 4);
    lemma_buttons_written(sensed, p.buttons, 41);
    crate::hal::logitech_g600::report::report_reads_back(w);
    assert(storable_resolution(p.resolutions[d], d));
    assert(p.resolutions[d].is_default);
    assert(w.dpi_default == d + 1);
    assert(w.dpi[d] == dpi_byte(p.resolutions[d]));
}

/// An LED is read back as it was written: off, or lit in a colour that is not
/// black, or with an effect of up to 15 whole seconds.
pub proof fn led_reads_back(m: ReportModel, l: LedModel)
    requires
        match l.mode {
            LedMode::Off => true,
            LedMode::Solid => l.color.rgb() != (RgbColor { r: 0, g: 0, b: 0 }),
            LedMode::Breathing | LedMode::Cycle => l.effect_duration % 1000 == 0
                && l.effect_duration <= 15000,
            _ => false,
        },
    ensures
        loaded_led(with_led(m, l)).mode == l.mode,
        !(l.mode is Off) ==> loaded_led(with_led(m, l)).color == Color::of_rgb(l.color.rgb()),
        l.mode is Breathing || l.mode is Cycle ==> loaded_led(with_led(m, l)).effect_duration
            == l.effect_duration,
{
}

/// The report that makes a resolution active names that resolution.
pub proof fn resolution_report_names_slot(slot: u8)
    requires
        slot < 4,
    ensures
        resolution_report(slot)[1] / 2 % 4 == slot,
{
}

} // verus!
