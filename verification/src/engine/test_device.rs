//! Synthetic devices for integration tests: their description and the device
//! state that it stands for.

use crate::engine::device;
use crate::engine::device::{
    ActionType, ButtonInfo, ButtonModel, Color, DeviceInfo, DeviceModel, Dpi, LedInfo, LedMode,
    LedModel, ProfileInfo, ProfileModel, ResolutionInfo, ResolutionModel,
};
use crate::engine::device_database::{DriverConfig, DriverConfigModel};
use crate::text;
use vstd::prelude::*;
use vstd::string::*;

verus! {

#[derive(Debug)]
pub struct TestDeviceSpec {
    pub profiles: Vec<TestProfileSpec>,
}

impl Default for TestDeviceSpec {
    fn default() -> (r: Self)
        ensures
            r.profiles@ == Seq::<TestProfileSpec>::empty(),
    {
        TestDeviceSpec { profiles: Vec::new() }
    }
}

#[derive(Debug, Default)]
pub struct TestProfileSpec {
    pub is_active: bool,
    pub is_default: bool,
    pub is_disabled: bool,
    /// Polling rate in Hz.
    pub rate: u32,
    pub report_rates: Vec<u32>,
    pub resolutions: Vec<TestResolutionSpec>,
    pub buttons: Vec<TestButtonSpec>,
    pub leds: Vec<TestLedSpec>,
}

#[derive(Debug, Default)]
pub struct TestResolutionSpec {
    pub xres: u32,
    pub yres: u32,
    pub dpi_min: Option<u32>,
    pub dpi_max: Option<u32>,
    pub is_active: bool,
    pub is_default: bool,
    pub is_disabled: bool,
    pub capabilities: Vec<u32>,
}

#[derive(Debug, Default)]
pub struct TestButtonSpec {
    pub action_type: String,
    pub button: u32,
    pub key: u32,
}

#[derive(Debug, Default)]
pub struct TestLedSpec {
    pub mode: u32,
    pub duration: u32,
    pub brightness: u32,
    /// Red, green and blue.
    pub color: Option<Vec<u8>>,
}

/// What an absent flag of a profile or resolution means.
pub fn default_true() -> (r: bool)
    ensures
        r,
{
    true
}

/// What an absent polling rate means.
pub fn default_rate() -> (r: u32)
    ensures
        r == 1000,
{
    1000
}

/// What an absent list of polling rates means.
pub fn default_report_rates() -> (r: Vec<u32>)
    ensures
        r@ == seq![125u32, 250, 500, 1000],
{
    let r: Vec<u32> = vec![125, 250, 500, 1000];
    assert(r@ =~= seq![125u32, 250, 500, 1000]);
    r
}

/// What an absent resolution value means.
pub fn default_dpi() -> (r: u32)
    ensures
        r == 1000,
{
    1000
}

/// What an absent action type means.
pub fn default_action_type() -> (r: String)
    ensures
        r@ == "button"@,
{
    "button".to_owned()
}

/// What an absent LED brightness means.
pub fn default_brightness() -> (r: u32)
    ensures
        r == 100,
{
    100
}

/// Whether a resolution is the one that stands in for an absent list.
pub open spec fn is_default_resolution(r: TestResolutionSpec) -> bool {
    &&& r.xres == 1000
    &&& r.yres == 1000
    &&& r.dpi_min == Some(1000u32)
    &&& r.dpi_max == Some(1000u32)
    &&& r.is_active
    &&& r.is_default
    &&& !r.is_disabled
    &&& r.capabilities@ == Seq::<u32>::empty()
}

/// Whether a button is the one that stands in for an absent list.
pub open spec fn is_default_button(b: TestButtonSpec) -> bool {
    b.action_type@ == "button"@ && b.button == 0 && b.key == 0
}

pub fn default_resolution() -> (r: TestResolutionSpec)
    ensures
        is_default_resolution(r),
{
    TestResolutionSpec {
        xres: 1000,
        yres: 1000,
        dpi_min: Some(1000),
        dpi_max: Some(1000),
        is_active: true,
        is_default: true,
        is_disabled: false,
        capabilities: Vec::new(),
    }
}

pub fn default_button() -> (r: TestButtonSpec)
    ensures
        is_default_button(r),
{
    TestButtonSpec { action_type: "button".to_owned(), button: 0, key: 0 }
}

/// The profile of a device that is described by nothing.
pub fn default_profile() -> (r: TestProfileSpec)
    ensures
        r.is_active,
        r.is_default,
        !r.is_disabled,
        r.rate == 1000,
        r.report_rates@ == seq![125u32, 250, 500, 1000],
        r.resolutions@.len() == 1,
        is_default_resolution(r.resolutions@[0]),
        r.buttons@.len() == 1,
        is_default_button(r.buttons@[0]),
        r.leds@.len() == 0,
{
    TestProfileSpec {
        is_active: true,
        is_default: true,
        is_disabled: false,
        rate: 1000,
        report_rates: default_report_rates(),
        resolutions: vec![default_resolution()],
        buttons: vec![default_button()],
        leds: Vec::new(),
    }
}

/// The DPI values a resolution offers: those between its bounds, a hundred
/// apart, or its own value where a bound is missing.
pub open spec fn dpi_values(r: TestResolutionSpec) -> Seq<u32> {
    match (r.dpi_min, r.dpi_max) {
        (Some(lo), Some(hi)) => device::stepped_range(
            lo,
            hi,
            if hi > lo {
                100
            } else {
                1
            },
        ),
        _ => seq![r.xres],
    }
}

/// Whether the bounds of a resolution are in order.
pub open spec fn bounds_in_order(r: TestResolutionSpec) -> bool {
    r.dpi_min is Some && r.dpi_max is Some ==> r.dpi_min->0 <= r.dpi_max->0
}

pub open spec fn resolution_model(i: int, r: TestResolutionSpec) -> ResolutionModel {
    ResolutionModel {
        index: i as u32,
        dpi: if r.xres == r.yres {
            Dpi::Unified(r.xres)
        } else {
            Dpi::Separate { x: r.xres, y: r.yres }
        },
        dpi_list: dpi_values(r),
        capabilities: r.capabilities@,
        is_active: r.is_active,
        is_default: r.is_default,
        is_disabled: r.is_disabled,
    }
}

/// The resolution that stands in for an absent list.
pub open spec fn fallback_resolution() -> ResolutionModel {
    ResolutionModel {
        index: 0,
        dpi: Dpi::Unified(1000),
        dpi_list: seq![1000u32],
        capabilities: Seq::empty(),
        is_active: true,
        is_default: true,
        is_disabled: false,
    }
}

/// The action type that a name stands for.
pub open spec fn action_type_named(name: Seq<char>) -> ActionType {
    if name == "none"@ {
        ActionType::NoAction
    } else if name == "button"@ {
        ActionType::Button
    } else if name == "special"@ {
        ActionType::Special
    } else if name == "key"@ {
        ActionType::Key
    } else if name == "macro"@ {
        ActionType::Macro
    } else {
        ActionType::Unknown
    }
}

pub open spec fn button_model(i: int, b: TestButtonSpec) -> ButtonModel {
    ButtonModel {
        index: i as u32,
        action_type: action_type_named(b.action_type@),
        action_types: seq![0u32, 1, 2, 3, 4],
        mapping_value: b.button,
        macro_entries: Seq::empty(),
    }
}

/// The button that stands in for an absent list.
pub open spec fn fallback_button() -> ButtonModel {
    ButtonModel {
        index: 0,
        action_type: ActionType::Button,
        action_types: seq![0u32, 1, 2, 3, 4],
        mapping_value: 0,
        macro_entries: Seq::empty(),
    }
}

/// The colour of a list of components; black where fewer than three are given.
pub open spec fn led_color(c: Option<Vec<u8>>) -> Color {
    match c {
        Some(v) => if v@.len() >= 3 {
            Color { red: v@[0] as u32, green: v@[1] as u32, blue: v@[2] as u32 }
        } else {
            Color::black()
        },
        None => Color::black(),
    }
}

pub open spec fn led_model(i: int, l: TestLedSpec) -> LedModel {
    LedModel {
        index: i as u32,
        mode: match LedMode::of_code(l.mode) {
            Some(m) => m,
            None => LedMode::Off,
        },
        modes: seq![
            LedMode::Off,
            LedMode::Solid,
            LedMode::Cycle,
            LedMode::ColorWave,
            LedMode::Breathing,
        ],
        color: led_color(l.color),
        secondary_color: Color::black(),
        tertiary_color: Color::black(),
        color_depth: 1,
        effect_duration: l.duration,
        brightness: l.brightness,
    }
}

pub open spec fn profile_model(i: int, p: TestProfileSpec) -> ProfileModel {
    ProfileModel {
        index: i as u32,
        name: Seq::empty(),
        is_active: p.is_active,
        is_enabled: !p.is_disabled,
        is_dirty: false,
        report_rate: p.rate,
        report_rates: p.report_rates@,
        angle_snapping: -1i32,
        debounce: -1i32,
        debounces: Seq::empty(),
        capabilities: Seq::empty(),
        resolutions: if p.resolutions@.len() == 0 {
            seq![fallback_resolution()]
        } else {
            p.resolutions@.map(|i: int, r: TestResolutionSpec| resolution_model(i, r))
        },
        buttons: if p.buttons@.len() == 0 {
            seq![fallback_button()]
        } else {
            p.buttons@.map(|i: int, b: TestButtonSpec| button_model(i, b))
        },
        leds: p.leds@.map(|i: int, l: TestLedSpec| led_model(i, l)),
    }
}

/// The profile of a device that is described by nothing.
pub open spec fn fallback_profile() -> ProfileModel {
    ProfileModel {
        index: 0,
        name: Seq::empty(),
        is_active: true,
        is_enabled: true,
        is_dirty: false,
        report_rate: 1000,
        report_rates: seq![125u32, 250, 500, 1000],
        angle_snapping: -1i32,
        debounce: -1i32,
        debounces: Seq::empty(),
        capabilities: Seq::empty(),
        resolutions: seq![fallback_resolution()],
        buttons: seq![fallback_button()],
        leds: Seq::empty(),
    }
}

/// The device that a description stands for.
pub open spec fn device_model(sysname: Seq<char>, spec: TestDeviceSpec) -> DeviceModel {
    DeviceModel {
        sysname,
        name: "Test Device ("@ + sysname + ")"@,
        model: "test:0000:0000:0"@,
        firmware_version: Seq::empty(),
        device_type: 2,
        profiles: if spec.profiles@.len() == 0 {
            seq![fallback_profile()]
        } else {
            spec.profiles@.map(|i: int, p: TestProfileSpec| profile_model(i, p))
        },
        driver_config: DriverConfigModel::empty(),
    }
}

proof fn lemma_fallback_resolution(r: TestResolutionSpec)
    requires
        is_default_resolution(r),
    ensures
        resolution_model(0, r) == fallback_resolution(),
{
    assert(dpi_values(r) =~= seq![1000u32]);
    assert(resolution_model(0, r) =~= fallback_resolution());
}

fn build_resolutions(specs: &Vec<TestResolutionSpec>) -> (out: Vec<ResolutionInfo>)
    requires
        forall|i: int| 0 <= i < specs@.len() ==> bounds_in_order(#[trigger] specs@[i]),
    ensures
        device::resolutions_view(out@) == specs@.map(
            |i: int, r: TestResolutionSpec| resolution_model(i, r),
        ),
{
    let mut out: Vec<ResolutionInfo> = Vec::new();
    let mut i: usize = 0;
    while i < specs.len()
        invariant
            i <= specs@.len(),
            out@.len() == i,
            forall|k: int| 0 <= k < specs@.len() ==> bounds_in_order(#[trigger] specs@[k]),
            forall|k: int| 0 <= k < i ==> (#[trigger] out@[k])@ == resolution_model(k, specs@[k]),
        decreases specs@.len() - i,
    {
        let r = &specs[i];
        assert(bounds_in_order(specs@[i as int]));
        let dpi_list: Vec<u32> = match (r.dpi_min, r.dpi_max) {
            (Some(lo), Some(hi)) => {
                let step: u32 = if hi - lo > 0 {
                    100
                } else {
                    1
                };
                device::stepped_list(lo, hi, step)
            },
            _ => vec![r.xres],
        };
        assert(dpi_list@ =~= dpi_values(*r));
        let x = ResolutionInfo {
            index: i as u32,
            dpi: if r.xres == r.yres {
                Dpi::Unified(r.xres)
            } else {
                Dpi::Separate { x: r.xres, y: r.yres }
            },
            dpi_list,
            capabilities: r.capabilities.clone(),
            is_active: r.is_active,
            is_default: r.is_default,
            is_disabled: r.is_disabled,
        };
        assert(x@ =~= resolution_model(i as int, specs@[i as int]));
        out.push(x);
        i += 1;
    }
    assert(device::resolutions_view(out@) =~= specs@.map(
        |i: int, r: TestResolutionSpec| resolution_model(i, r),
    ));
    out
}

fn action_type_from_name(name: &str) -> (r: ActionType)
    ensures
        r == action_type_named(name@),
{
    if text::str_eq(name, "none") {
        ActionType::NoAction
    } else if text::str_eq(name, "button") {
        ActionType::Button
    } else if text::str_eq(name, "special") {
        ActionType::Special
    } else if text::str_eq(name, "key") {
        ActionType::Key
    } else if text::str_eq(name, "macro") {
        ActionType::Macro
    } else {
        ActionType::Unknown
    }
}

fn build_buttons(specs: &Vec<TestButtonSpec>) -> (out: Vec<ButtonInfo>)
    ensures
        device::buttons_view(out@) == specs@.map(|i: int, b: TestButtonSpec| button_model(i, b)),
{
    let mut out: Vec<ButtonInfo> = Vec::new();
    let mut i: usize = 0;
    while i < specs.len()
        invariant
            i <= specs@.len(),
            out@.len() == i,
            forall|k: int| 0 <= k < i ==> (#[trigger] out@[k])@ == button_model(k, specs@[k]),
        decreases specs@.len() - i,
    {
        let b = &specs[i];
        let x = ButtonInfo {
            index: i as u32,
            action_type: action_type_from_name(b.action_type.as_str()),
            action_types: vec![0, 1, 2, 3, 4],
            mapping_value: b.button,
            macro_entries: Vec::new(),
        };
        assert(x@ =~= button_model(i as int, specs@[i as int]));
        out.push(x);
        i += 1;
    }
    assert(device::buttons_view(out@) =~= specs@.map(
        |i: int, b: TestButtonSpec| button_model(i, b),
    ));
    out
}

fn build_leds(specs: &Vec<TestLedSpec>) -> (out: Vec<LedInfo>)
    ensures
        device::leds_view(out@) == specs@.map(|i: int, l: TestLedSpec| led_model(i, l)),
{
    let mut out: Vec<LedInfo> = Vec::new();
    let mut i: usize = 0;
    while i < specs.len()
        invariant
            i <= specs@.len(),
            out@.len() == i,
            forall|k: int| 0 <= k < i ==> (#[trigger] out@[k])@ == led_model(k, specs@[k]),
        decreases specs@.len() - i,
    {
        let l = &specs[i];
        let color: Color = match &l.color {
            Some(c) => if c.len() >= 3 {
                Color { red: c[0] as u32, green: c[1] as u32, blue: c[2] as u32 }
            } else {
                Color::default()
            },
            None => Color::default(),
        };
        let x = LedInfo {
            index: i as u32,
            mode: LedMode::from_u32(l.mode).unwrap_or(LedMode::Off),
            modes: vec![
                LedMode::Off,
                LedMode::Solid,
                LedMode::Cycle,
                LedMode::ColorWave,
                LedMode::Breathing,
            ],
            color,
            secondary_color: Color::default(),
            tertiary_color: Color::default(),
            color_depth: 1,
            effect_duration: l.duration,
            brightness: l.brightness,
        };
        assert(x@ =~= led_model(i as int, specs@[i as int]));
        out.push(x);
        i += 1;
    }
    assert(device::leds_view(out@) =~= specs@.map(|i: int, l: TestLedSpec| led_model(i, l)));
    out
}

fn build_profile(i: usize, p: &TestProfileSpec) -> (r: ProfileInfo)
    requires
        forall|k: int| 0 <= k < p.resolutions@.len() ==> bounds_in_order(#[trigger] p.resolutions@[k]),
    ensures
        r@ == profile_model(i as int, *p),
{
    let resolutions: Vec<ResolutionInfo> = if p.resolutions.is_empty() {
        let d = default_resolution();
        proof {
            lemma_fallback_resolution(d);
        }
        let list: Vec<TestResolutionSpec> = vec![d];
        let built = build_resolutions(&list);
        assert(device::resolutions_view(built@) =~= seq![fallback_resolution()]);
        built
    } else {
        build_resolutions(&p.resolutions)
    };
    let buttons: Vec<ButtonInfo> = if p.buttons.is_empty() {
        let d = default_button();
        proof {
            reveal_strlit("none");
            reveal_strlit("button");
            assert("none"@.len() != "button"@.len());
            assert(button_model(0, d) =~= fallback_button());
        }
        let list: Vec<TestButtonSpec> = vec![d];
        let built = build_buttons(&list);
        assert(device::buttons_view(built@) =~= seq![fallback_button()]);
        built
    } else {
        build_buttons(&p.buttons)
    };
    let r = ProfileInfo {
        index: i as u32,
        name: String::new(),
        is_active: p.is_active,
        is_enabled: !p.is_disabled,
        is_dirty: false,
        report_rate: p.rate,
        report_rates: p.report_rates.clone(),
        angle_snapping: -1,
        debounce: -1,
        debounces: Vec::new(),
        capabilities: Vec::new(),
        resolutions,
        buttons,
        leds: build_leds(&p.leds),
    };
    assert(r@ =~= profile_model(i as int, *p));
    r
}

/// Builds the state of a synthetic device. A description without profiles, a
/// profile without resolutions and one without buttons each get one default.
pub fn build_device_info(sysname: &str, spec: TestDeviceSpec) -> (r: DeviceInfo)
    requires
        forall|i: int, k: int|
            0 <= i < spec.profiles@.len() && 0 <= k < spec.profiles@[i].resolutions@.len()
                ==> bounds_in_order(#[trigger] spec.profiles@[i].resolutions@[k]),
    ensures
        r@ == device_model(sysname@, spec),
{
    let mut profiles: Vec<ProfileInfo> = Vec::new();
    if spec.profiles.is_empty() {
        let d = default_profile();
        assert(bounds_in_order(d.resolutions@[0]));
        let built = build_profile(0, &d);
        proof {
            lemma_fallback_resolution(d.resolutions@[0]);
            reveal_strlit("none");
            reveal_strlit("button");
            assert("none"@.len() != "button"@.len());
            assert(button_model(0, d.buttons@[0]) =~= fallback_button());
            assert(built@.resolutions =~= seq![fallback_resolution()]);
            assert(built@.buttons =~= seq![fallback_button()]);
            assert(built@ =~= fallback_profile());
        }
        profiles.push(built);
        assert(device::profiles_view(profiles@) =~= seq![fallback_profile()]);
    } else {
        let mut i: usize = 0;
        while i < spec.profiles.len()
            invariant
                i <= spec.profiles@.len(),
                profiles@.len() == i,
                forall|i: int, k: int|
                    0 <= i < spec.profiles@.len() && 0 <= k < spec.profiles@[i].resolutions@.len()
                        ==> bounds_in_order(#[trigger] spec.profiles@[i].resolutions@[k]),
                forall|k: int|
                    0 <= k < i ==> (#[trigger] profiles@[k])@ == profile_model(
                        k,
                        spec.profiles@[k],
                    ),
            decreases spec.profiles@.len() - i,
        {
            let p = build_profile(i, &spec.profiles[i]);
            profiles.push(p);
            i += 1;
        }
        assert(device::profiles_view(profiles@) =~= spec.profiles@.map(
            |i: int, p: TestProfileSpec| profile_model(i, p),
        ));
    }
    let mut name: String = "Test Device (".to_owned();
    name.append(sysname);
    name.append(")");
    let r = DeviceInfo {
        sysname: sysname.to_owned(),
        name,
        model: "test:0000:0000:0".to_owned(),
        firmware_version: String::new(),
        device_type: 2,
        profiles,
        driver_config: DriverConfig::default(),
    };
    assert(r@ =~= device_model(sysname@, spec));
    r
}

/// Whether a description is blank, and so stands for the default device.
pub fn is_blank(json: &str) -> (r: bool)
    ensures
        r == (forall|i: int| 0 <= i < json@.len() ==> text::whitespace(#[trigger] json@[i])),
{
    let n: usize = json.unicode_len();
    let mut i: usize = 0;
    while i < n
        invariant
            i <= n,
            n == json@.len(),
            forall|k: int| 0 <= k < i ==> text::whitespace(#[trigger] json@[k]),
        decreases n - i,
    {
        if !text::is_whitespace(json.get_char(i)) {
            return false;
        }
        i += 1;
    }
    true
}

} // verus!
