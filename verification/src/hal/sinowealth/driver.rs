//! What a driver knows of its device, how it reads the device, and what it
//! writes to it.

use crate::bytes;
use crate::engine::device;
use crate::engine::device::{
    ActionType, ButtonInfo, ButtonModel, Color, DeviceInfo, DeviceModel, Dpi, LedInfo, LedMode,
    LedModel, ProfileInfo, ProfileModel, RATBAG_RESOLUTION_CAP_DISABLE,
    RATBAG_RESOLUTION_CAP_SEPARATE_XY_RESOLUTION, ResolutionInfo, ResolutionModel,
};
use crate::engine::device_database;
use crate::engine::device_database::{SinowealthDevice, SinowealthDeviceModel};
use crate::hal::sinowealth::button;
use crate::hal::sinowealth::button::{
    build_macro, encode_buttons_from_profile, parse_buttons_into_profile, parse_macro,
};
use crate::hal::sinowealth::config;
use crate::hal::sinowealth::config::{
    debounce_time_list, encode_config_from_profile, parse_config_into_profile, report_rate_list,
};
use crate::hal::sinowealth::protocol;
use crate::hal::sinowealth::protocol::{
    CommandId, LedType, ReportId, Sensor, SinowealthError, build_cmd, build_cmd_with, buttons_cmd,
    config_cmd, detect_config_size, format_firmware_version,
};
use crate::text;
use vstd::prelude::*;
use vstd::string::*;

verus! {

/// What was read from a device, and what the database says of it.
#[derive(Debug)]
pub struct SinowealthData {
    pub firmware_version: [u8; 2],
    pub firmware_version_string: String,
    pub is_long: bool,
    pub sensor: Sensor,
    pub led_type: LedType,
    pub num_buttons: usize,
    pub num_profiles: usize,
    pub config_size: usize,
    /// The settings of each profile.
    pub configs: Vec<Vec<u8>>,
    /// The buttons of each profile.
    pub buttons: Vec<Vec<u8>>,
    pub active_profile: u8,
}

/// The contents of a [`SinowealthData`].
#[verifier::ext_equal]
pub struct DataModel {
    pub firmware_version: Seq<u8>,
    pub firmware_text: Seq<char>,
    pub is_long: bool,
    pub sensor: Sensor,
    pub led_type: LedType,
    pub num_buttons: int,
    pub num_profiles: int,
    pub config_size: int,
    pub configs: Seq<Seq<u8>>,
    pub buttons: Seq<Seq<u8>>,
    pub active_profile: u8,
}

/// The contents of a list of reports.
pub open spec fn reports_view(s: Seq<Vec<u8>>) -> Seq<Seq<u8>> {
    s.map_values(|v: Vec<u8>| v@)
}

impl View for SinowealthData {
    type V = DataModel;

    open spec fn view(&self) -> DataModel {
        DataModel {
            firmware_version: self.firmware_version@,
            firmware_text: self.firmware_version_string@,
            is_long: self.is_long,
            sensor: self.sensor,
            led_type: self.led_type,
            num_buttons: self.num_buttons as int,
            num_profiles: self.num_profiles as int,
            config_size: self.config_size as int,
            configs: reports_view(self.configs@),
            buttons: reports_view(self.buttons@),
            active_profile: self.active_profile,
        }
    }
}

/// Driver of mice with SinoWealth controllers.
#[derive(Debug)]
pub struct SinowealthDriver {
    /// What was read from the device, once it was probed.
    pub data: Option<SinowealthData>,
}

/// The report for settings and buttons.
pub open spec fn data_report(is_long: bool) -> ReportId {
    if is_long {
        ReportId::ConfigLong
    } else {
        ReportId::Config
    }
}

/// The report for settings and buttons.
pub fn data_report_id(is_long: bool) -> (r: ReportId)
    ensures
        r == data_report(is_long),
{
    if is_long {
        ReportId::ConfigLong
    } else {
        ReportId::Config
    }
}

/// What is known of a device that was probed.
pub open spec fn probed_data(resp: Seq<u8>, is_long: bool, config: Seq<u8>) -> DataModel {
    DataModel {
        firmware_version: seq![resp[2], resp[3]],
        firmware_text: protocol::firmware_text(resp[2], resp[3]),
        is_long,
        sensor: Sensor::Pmw3360,
        led_type: LedType::Absent,
        num_buttons: 6,
        num_profiles: 1,
        config_size: if protocol::has_long_settings(config) {
            167
        } else {
            123
        },
        configs: seq![config],
        buttons: Seq::empty(),
        active_profile: 0,
    }
}

impl SinowealthDriver {
    pub fn new() -> (r: Self)
        ensures
            r.data is None,
    {
        SinowealthDriver { data: None }
    }

    /// Takes over the answer for the firmware version, and the settings of the
    /// first profile.
    pub fn probed(&mut self, resp: &[u8; 6], is_long: bool, config: Vec<u8>)
        ensures
            final(self).data matches Some(d) && d@ == probed_data(resp@, is_long, config@),
    {
        let config_size: usize = detect_config_size(config.as_slice());
        let mut configs: Vec<Vec<u8>> = Vec::new();
        let ghost first = config@;
        configs.push(config);
        let d = SinowealthData {
            firmware_version: [resp[2], resp[3]],
            firmware_version_string: format_firmware_version([resp[2], resp[3]]),
            is_long,
            sensor: Sensor::Pmw3360,
            led_type: LedType::Absent,
            num_buttons: 6,
            num_profiles: 1,
            config_size,
            configs,
            buttons: Vec::new(),
            active_profile: 0,
        };
        assert(d@ =~= probed_data(resp@, is_long, first)) by {
            assert(d@.configs =~= seq![first]);
            assert(d@.buttons =~= Seq::empty());
            assert(d@.firmware_version =~= seq![resp[2], resp[3]]);
        }
        self.data = Some(d);
    }
}

/// The first entry of the database from `i` on for a firmware version, whatever
/// the case of its letters.
pub open spec fn entry_for(devices: Seq<SinowealthDeviceModel>, version: Seq<char>, i: int) -> Option<
    int,
>
    decreases devices.len() - i,
{
    if i < 0 || i >= devices.len() {
        None
    } else if text::same_ignoring_case(devices[i].firmware_version, version) {
        Some(i)
    } else {
        entry_for(devices, version, i + 1)
    }
}

/// What is known of a device once the database was asked: nothing more where it
/// has no entry for the firmware version.
pub open spec fn configured(d: DataModel, devices: Seq<SinowealthDeviceModel>) -> DataModel {
    match entry_for(devices, d.firmware_text, 0) {
        None => d,
        Some(i) => {
            let e = devices[i];
            DataModel {
                sensor: match protocol::sensor_named(text::upper(e.sensor_type)) {
                    Some(s) => s,
                    None => Sensor::Pmw3360,
                },
                led_type: LedType::of(e.led_type),
                num_buttons: e.buttons as int,
                num_profiles: if e.profiles == 0 {
                    1
                } else {
                    e.profiles as int
                },
                ..d
            }
        },
    }
}

fn find_entry(devices: &Vec<SinowealthDevice>, version: &str) -> (r: Option<usize>)
    ensures
        match r {
            Some(i) => i < devices@.len() && entry_for(
                device_database::sinowealth_devices_view(devices@),
                version@,
                0,
            ) == Some(i as int),
            None => entry_for(
                device_database::sinowealth_devices_view(devices@),
                version@,
                0,
            ) is None,
        },
{
    let ghost models = device_database::sinowealth_devices_view(devices@);
    let mut i: usize = 0;
    while i < devices.len()
        invariant
            i <= devices@.len(),
            models == device_database::sinowealth_devices_view(devices@),
            entry_for(models, version@, 0) == entry_for(models, version@, i as int),
        decreases devices@.len() - i,
    {
        assert(models[i as int] == devices@[i as int]@);
        if text::eq_ignore_case(devices[i].firmware_version.as_str(), version) {
            return Some(i);
        }
        i += 1;
    }
    None
}

/// The resolution at slot `i` before anything is read.
pub open spec fn blank_resolution(sensor: Sensor, i: int) -> ResolutionModel {
    ResolutionModel {
        index: i as u32,
        dpi: Dpi::Unified(800),
        dpi_list: device::stepped_range(100, sensor.top_dpi(), 100),
        capabilities: seq![
            RATBAG_RESOLUTION_CAP_SEPARATE_XY_RESOLUTION,
            RATBAG_RESOLUTION_CAP_DISABLE,
        ],
        is_active: i == 0,
        is_default: i == 0,
        is_disabled: false,
    }
}

/// The button at `i` before anything is read.
pub open spec fn blank_button(i: int) -> ButtonModel {
    ButtonModel {
        index: i as u32,
        action_type: ActionType::Button,
        action_types: seq![0u32, 1, 2, 3, 4],
        mapping_value: (0x110 + i) as u32,
        macro_entries: Seq::empty(),
    }
}

/// The LED before anything is read.
pub open spec fn blank_led() -> LedModel {
    LedModel {
        index: 0,
        mode: LedMode::Off,
        modes: seq![
            LedMode::Off,
            LedMode::Solid,
            LedMode::Cycle,
            LedMode::Breathing,
            LedMode::ColorWave,
        ],
        color: Color::black(),
        secondary_color: Color::black(),
        tertiary_color: Color::black(),
        color_depth: 1,
        effect_duration: 0,
        brightness: 255,
    }
}

/// The profile at `i` before anything is read.
pub open spec fn blank_profile(d: DataModel, i: int) -> ProfileModel {
    ProfileModel {
        index: i as u32,
        name: Seq::empty(),
        is_active: i as u32 == d.active_profile,
        is_enabled: true,
        is_dirty: false,
        report_rate: 1000,
        report_rates: config::report_rates(),
        angle_snapping: -1i32,
        debounce: -1i32,
        debounces: config::debounce_times(),
        capabilities: Seq::empty(),
        resolutions: Seq::new(8, |j: int| blank_resolution(d.sensor, j)),
        buttons: Seq::new(d.num_buttons as nat, |j: int| blank_button(j)),
        leds: if d.led_type is Absent {
            Seq::empty()
        } else {
            seq![blank_led()]
        },
    }
}

/// The profile at `i` as its settings and buttons describe it; macros apart.
pub open spec fn read_profile(d: DataModel, i: int) -> ProfileModel {
    button::with_buttons(
        config::loaded_profile(d.sensor, d.led_type, d.configs[i], blank_profile(d, i)),
        d.buttons[i],
        d.num_buttons as nat,
    )
}

fn build_resolutions(sensor: Sensor) -> (r: Vec<ResolutionInfo>)
    ensures
        device::resolutions_view(r@) == Seq::new(8, |j: int| blank_resolution(sensor, j)),
{
    let mut r: Vec<ResolutionInfo> = Vec::new();
    let mut j: usize = 0;
    while j < 8
        invariant
            j <= 8,
            r@.len() == j,
            forall|k: int| 0 <= k < j ==> (#[trigger] r@[k])@ == blank_resolution(sensor, k),
        decreases 8 - j,
    {
        let item = ResolutionInfo {
            index: j as u32,
            dpi: Dpi::Unified(800),
            dpi_list: device::stepped_list(100, sensor.max_dpi(), 100),
            capabilities: vec![
                RATBAG_RESOLUTION_CAP_SEPARATE_XY_RESOLUTION,
                RATBAG_RESOLUTION_CAP_DISABLE,
            ],
            is_active: j == 0,
            is_default: j == 0,
            is_disabled: false,
        };
        assert(item@ =~= blank_resolution(sensor, j as int));
        r.push(item);
        j += 1;
    }
    assert(device::resolutions_view(r@) =~= Seq::new(8, |j: int| blank_resolution(sensor, j)));
    r
}

fn build_buttons(n: usize) -> (r: Vec<ButtonInfo>)
    requires
        n + 0x10F <= u32::MAX,
    ensures
        device::buttons_view(r@) == Seq::new(n as nat, |j: int| blank_button(j)),
{
    let mut r: Vec<ButtonInfo> = Vec::new();
    let mut j: usize = 0;
    while j < n
        invariant
            j <= n,
            n + 0x10F <= u32::MAX,
            r@.len() == j,
            forall|k: int| 0 <= k < j ==> (#[trigger] r@[k])@ == blank_button(k),
        decreases n - j,
    {
        let item = ButtonInfo {
            index: j as u32,
            action_type: ActionType::Button,
            action_types: vec![0, 1, 2, 3, 4],
            mapping_value: 0x110 + j as u32,
            macro_entries: Vec::new(),
        };
        assert(item@ =~= blank_button(j as int));
        r.push(item);
        j += 1;
    }
    assert(device::buttons_view(r@) =~= Seq::new(n as nat, |j: int| blank_button(j)));
    r
}

fn build_leds(led_type: LedType) -> (r: Vec<LedInfo>)
    ensures
        device::leds_view(r@) == if led_type is Absent {
            Seq::empty()
        } else {
            seq![blank_led()]
        },
{
    let mut r: Vec<LedInfo> = Vec::new();
    if led_type != LedType::Absent {
        let led = LedInfo {
            index: 0,
            mode: LedMode::Off,
            modes: vec![
                LedMode::Off,
                LedMode::Solid,
                LedMode::Cycle,
                LedMode::Breathing,
                LedMode::ColorWave,
            ],
            color: Color::default(),
            secondary_color: Color::default(),
            tertiary_color: Color::default(),
            color_depth: 1,
            effect_duration: 0,
            brightness: 255,
        };
        assert(led@ =~= blank_led());
        r.push(led);
    }
    assert(device::leds_view(r@) =~= if led_type is Absent {
        Seq::empty()
    } else {
        seq![blank_led()]
    });
    r
}

/// What is to be read next.
#[derive(Debug, Clone, Copy, PartialEq, Eq, Structural)]
pub enum SinowealthLoadPhase {
    /// The settings of a profile.
    Config { index: usize },
    /// The buttons of a profile.
    Buttons { index: usize },
    /// The active profile.
    Active,
    /// The macro of a button.
    Macro { profile: usize, button: usize },
    Done,
    Failed { error: SinowealthError },
}

/// From the settings of the profile at `i` on.
pub open spec fn enter_config(d: DataModel, i: int) -> SinowealthLoadPhase {
    if i >= d.num_profiles {
        enter_buttons(d, 0)
    } else if i > 2 {
        SinowealthLoadPhase::Failed { error: SinowealthError::InvalidProfile { index: i as usize } }
    } else {
        SinowealthLoadPhase::Config { index: i as usize }
    }
}

/// From the buttons of the profile at `i` on.
pub open spec fn enter_buttons(d: DataModel, i: int) -> SinowealthLoadPhase {
    if i >= d.num_profiles {
        SinowealthLoadPhase::Active
    } else if i > 2 {
        SinowealthLoadPhase::Failed { error: SinowealthError::InvalidProfile { index: i as usize } }
    } else {
        SinowealthLoadPhase::Buttons { index: i as usize }
    }
}

/// The next button with a macro, from button `b` of profile `p` on.
pub open spec fn enter_macro(profiles: Seq<ProfileModel>, p: int, b: int) -> SinowealthLoadPhase
    decreases profiles.len() - p, profiles[p].buttons.len() - b,
{
    if p < 0 || b < 0 || p >= profiles.len() {
        SinowealthLoadPhase::Done
    } else if b >= profiles[p].buttons.len() {
        enter_macro(profiles, p + 1, 0)
    } else if profiles[p].buttons[b].action_type is Macro {
        SinowealthLoadPhase::Macro { profile: p as usize, button: b as usize }
    } else {
        enter_macro(profiles, p, b + 1)
    }
}

/// A reading, with what it fills in.
#[verifier::ext_equal]
pub struct Loading {
    pub phase: SinowealthLoadPhase,
    pub data: DataModel,
    pub info: DeviceModel,
}

/// With the macro of a button.
pub open spec fn with_macro(info: DeviceModel, p: int, b: int, events: Seq<(u32, u32)>) -> DeviceModel {
    let old_p = info.profiles[p];
    let old_b = old_p.buttons[b];
    DeviceModel {
        profiles: info.profiles.update(
            p,
            ProfileModel {
                buttons: old_p.buttons.update(b, ButtonModel { macro_entries: events, ..old_b }),
                ..old_p
            },
        ),
        ..info
    }
}

impl Loading {
    /// Once everything but macros has been read.
    pub open spec fn build(self) -> Loading {
        let profiles = Seq::new(
            self.data.num_profiles as nat,
            |i: int| read_profile(self.data, i),
        );
        Loading {
            phase: enter_macro(profiles, 0, 0),
            info: DeviceModel { profiles, ..self.info },
            ..self
        }
    }

    /// After a report; `None` if it could not be read. Only settings and
    /// buttons have to be there.
    pub open spec fn after(self, reply: Option<Seq<u8>>) -> Loading {
        match self.phase {
            SinowealthLoadPhase::Config { index } => match reply {
                None => Loading {
                    phase: SinowealthLoadPhase::Failed { error: SinowealthError::ReadFailed },
                    ..self
                },
                Some(buf) => {
                    let data = DataModel { configs: self.data.configs.push(buf), ..self.data };
                    Loading { phase: enter_config(data, index + 1), data, ..self }
                },
            },
            SinowealthLoadPhase::Buttons { index } => match reply {
                None => Loading {
                    phase: SinowealthLoadPhase::Failed { error: SinowealthError::ReadFailed },
                    ..self
                },
                Some(buf) => {
                    let data = DataModel { buttons: self.data.buttons.push(buf), ..self.data };
                    Loading { phase: enter_buttons(data, index + 1), data, ..self }
                },
            },
            SinowealthLoadPhase::Active => match reply {
                Some(resp) if resp[1] == CommandId::Profile.code() => Loading {
                    data: DataModel { active_profile: resp[2], ..self.data },
                    ..self
                }.build(),
                _ => self.build(),
            },
            SinowealthLoadPhase::Macro { profile, button } => {
                let info = match reply {
                    Some(buf) => with_macro(
                        self.info,
                        profile as int,
                        button as int,
                        button::macro_events(buf),
                    ),
                    None => self.info,
                };
                Loading {
                    phase: enter_macro(info.profiles, profile as int, button + 1),
                    info,
                    ..self
                }
            },
            SinowealthLoadPhase::Done => self,
            SinowealthLoadPhase::Failed { error } => self,
        }
    }

    /// What holds of every state: there are settings for each profile before
    /// the one that is read, and buttons likewise.
    pub open spec fn consistent(self) -> bool {
        &&& self.data.num_profiles >= 1
        &&& 0 <= self.data.num_buttons
        &&& self.data.num_buttons + 0x10F <= u32::MAX
        &&& match self.phase {
            SinowealthLoadPhase::Config { index } => 1 <= index <= 2 && index
                < self.data.num_profiles && self.data.configs.len() >= index,
            SinowealthLoadPhase::Buttons { index } => index <= 2 && index < self.data.num_profiles
                && self.data.num_profiles <= 3 && self.data.configs.len()
                >= self.data.num_profiles && self.data.buttons.len() >= index,
            SinowealthLoadPhase::Active => self.data.num_profiles <= 3 && self.data.configs.len()
                >= self.data.num_profiles && self.data.buttons.len() >= self.data.num_profiles,
            SinowealthLoadPhase::Macro { profile, button } => profile < self.info.profiles.len()
                && button < self.info.profiles[profile as int].buttons.len(),
            _ => true,
        }
    }

    /// How many bytes a report has.
    pub open spec fn reply_size(self) -> nat {
        match self.phase {
            SinowealthLoadPhase::Active => 6,
            SinowealthLoadPhase::Macro { profile, button } => 515,
            _ => 520,
        }
    }
}

/// The next thing to do: send a command, then read a report of some size.
#[derive(Debug, Clone, Copy)]
pub struct SinowealthQuery {
    pub cmd: [u8; 6],
    pub report: u8,
    pub size: usize,
}

/// The contents of a [`SinowealthQuery`].
#[verifier::ext_equal]
pub struct QueryModel {
    pub cmd: Seq<u8>,
    pub report: u8,
    pub size: int,
}

impl View for SinowealthQuery {
    type V = QueryModel;

    open spec fn view(&self) -> QueryModel {
        QueryModel { cmd: self.cmd@, report: self.report, size: self.size as int }
    }
}

/// The command for the settings of a profile.
pub open spec fn config_code(index: int) -> u8 {
    if index == 0 {
        0x11
    } else if index == 1 {
        0x21
    } else {
        0x31
    }
}

/// The command for the buttons of a profile.
pub open spec fn buttons_code(index: int) -> u8 {
    if index == 0 {
        0x12
    } else if index == 1 {
        0x22
    } else {
        0x32
    }
}

impl Loading {
    /// The next thing to do; `None` at the end.
    pub open spec fn query(self) -> Option<QueryModel> {
        let report = data_report(self.data.is_long).code();
        match self.phase {
            SinowealthLoadPhase::Config { index } => Some(
                QueryModel {
                    cmd: protocol::command(config_code(index as int), 0, 0),
                    report,
                    size: 520,
                },
            ),
            SinowealthLoadPhase::Buttons { index } => Some(
                QueryModel {
                    cmd: protocol::command(buttons_code(index as int), 0, 0),
                    report,
                    size: 520,
                },
            ),
            SinowealthLoadPhase::Active => Some(
                QueryModel {
                    cmd: protocol::command(CommandId::Profile.code(), 0, 0),
                    report: ReportId::Cmd.code(),
                    size: 6,
                },
            ),
            SinowealthLoadPhase::Macro { profile, button } => Some(
                QueryModel {
                    cmd: protocol::command(CommandId::Macro.code(), profile as u8, button as u8),
                    report,
                    size: 515,
                },
            ),
            SinowealthLoadPhase::Done => None,
            SinowealthLoadPhase::Failed { error } => None,
        }
    }
}

/// How far the reading of a device has come.
#[derive(Debug, Clone, Copy)]
pub struct SinowealthLoad {
    pub phase: SinowealthLoadPhase,
}

/// Where a phase stands in the order of a reading.
pub open spec fn stage(phase: SinowealthLoadPhase) -> int {
    match phase {
        SinowealthLoadPhase::Config { index } => index as int,
        SinowealthLoadPhase::Buttons { index } => 3 + index,
        SinowealthLoadPhase::Active => 6,
        SinowealthLoadPhase::Macro { profile, button } => 7,
        SinowealthLoadPhase::Done => 8,
        SinowealthLoadPhase::Failed { error } => 8,
    }
}

proof fn lemma_enter_macro(profiles: Seq<ProfileModel>, p: int, b: int)
    requires
        0 <= p,
        0 <= b,
        profiles.len() <= usize::MAX,
        forall|i: int|
            0 <= i < profiles.len() ==> (#[trigger] profiles[i]).buttons.len() <= usize::MAX,
    ensures
        match enter_macro(profiles, p, b) {
            SinowealthLoadPhase::Macro { profile, button } => {
                &&& profile < profiles.len()
                &&& button < profiles[profile as int].buttons.len()
                &&& profiles[profile as int].buttons[button as int].action_type is Macro
                &&& profile > p || (profile == p && button >= b)
            },
            SinowealthLoadPhase::Done => true,
            _ => false,
        },
    decreases profiles.len() - p, profiles[p].buttons.len() - b,
{
    if p < profiles.len() {
        if b >= profiles[p].buttons.len() {
            lemma_enter_macro(profiles, p + 1, 0);
        } else if !(profiles[p].buttons[b].action_type is Macro) {
            lemma_enter_macro(profiles, p, b + 1);
        }
    }
}

/// Each report brings a reading nearer to its end, and macros are read of
/// buttons that have one, each once.
pub proof fn loading_makes_progress(s: Loading, reply: Option<Seq<u8>>)
    requires
        s.consistent(),
        s.query() is Some,
        s.info.profiles.len() <= usize::MAX,
        forall|i: int|
            0 <= i < s.info.profiles.len() ==> (#[trigger] s.info.profiles[i]).buttons.len()
                <= usize::MAX,
    ensures
        stage(s.after(reply).phase) > stage(s.phase) || match (s.phase, s.after(reply).phase) {
            (
                SinowealthLoadPhase::Macro { profile: p, button: b },
                SinowealthLoadPhase::Macro { profile: q, button: c },
            ) => q > p || (q == p && c > b),
            _ => false,
        },
        s.after(reply).phase matches SinowealthLoadPhase::Macro { profile, button } ==> s.after(
            reply,
        ).info.profiles[profile as int].buttons[button as int].action_type is Macro,
{
    match s.phase {
        SinowealthLoadPhase::Active => {
            assert(usize::MAX >= u32::MAX);
            let t = s.after(reply);
            assert forall|i: int| 0 <= i < t.info.profiles.len() implies (
            #[trigger] t.info.profiles[i]).buttons.len() <= usize::MAX by {}
            lemma_enter_macro(t.info.profiles, 0, 0);
        },
        SinowealthLoadPhase::Macro { profile, button } => {
            let t = s.after(reply);
            assert forall|i: int| 0 <= i < t.info.profiles.len() implies (
            #[trigger] t.info.profiles[i]).buttons.len() <= usize::MAX by {
                assert(s.info.profiles[i].buttons.len() <= usize::MAX);
            }
            lemma_enter_macro(t.info.profiles, profile as int, button + 1);
        },
        _ => {},
    }
}

impl SinowealthLoad {
    /// The reading with what it fills in.
    pub open spec fn with(self, data: DataModel, info: DeviceModel) -> Loading {
        Loading { phase: self.phase, data, info }
    }

    /// Asks the database about the device, and begins.
    pub fn begin(data: &mut SinowealthData, info: &mut DeviceInfo) -> (r: Self)
        requires
            old(data)@.num_profiles >= 1,
            old(data)@.configs.len() >= 1,
            configured(old(data)@, old(info)@.driver_config.sinowealth_devices).num_buttons + 0x10F
                <= u32::MAX,
        ensures
            final(data)@ == configured(old(data)@, old(info)@.driver_config.sinowealth_devices),
            final(info)@ == (DeviceModel {
                firmware_version: old(data)@.firmware_text,
                ..old(info)@
            }),
            r.phase == enter_config(final(data)@, 1),
            r.with(final(data)@, final(info)@).consistent(),
    {
        let found = find_entry(
            &info.driver_config.sinowealth_devices,
            data.firmware_version_string.as_str(),
        );
        if let Some(i) = found {
            let e = &info.driver_config.sinowealth_devices[i];
            assert(info@.driver_config.sinowealth_devices[i as int]
                == info.driver_config.sinowealth_devices@[i as int]@);
            data.sensor = match Sensor::from_name(e.sensor_type.as_str()) {
                Some(s) => s,
                None => Sensor::Pmw3360,
            };
            data.led_type = LedType::from_database(e.led_type);
            data.num_buttons = e.buttons as usize;
            data.num_profiles = if e.profiles == 0 {
                1
            } else {
                e.profiles as usize
            };
        }
        info.firmware_version = data.firmware_version_string.clone();
        SinowealthLoad { phase: SinowealthLoad::at_config(data, 1) }
    }

    fn at_config(data: &SinowealthData, i: usize) -> (r: SinowealthLoadPhase)
        requires
            data@.num_profiles >= 1,
        ensures
            r == enter_config(data@, i as int),
    {
        if i >= data.num_profiles {
            SinowealthLoad::at_buttons(data, 0)
        } else {
            match config_cmd(i) {
                Ok(_) => SinowealthLoadPhase::Config { index: i },
                Err(error) => SinowealthLoadPhase::Failed { error },
            }
        }
    }

    fn at_buttons(data: &SinowealthData, i: usize) -> (r: SinowealthLoadPhase)
        ensures
            r == enter_buttons(data@, i as int),
    {
        if i >= data.num_profiles {
            SinowealthLoadPhase::Active
        } else {
            match buttons_cmd(i) {
                Ok(_) => SinowealthLoadPhase::Buttons { index: i },
                Err(error) => SinowealthLoadPhase::Failed { error },
            }
        }
    }

    fn at_macro(info: &DeviceInfo, from_profile: usize, from_button: usize) -> (r:
        SinowealthLoadPhase)
        ensures
            r == enter_macro(info@.profiles, from_profile as int, from_button as int),
            match r {
                SinowealthLoadPhase::Macro { profile, button } => profile < info@.profiles.len()
                    && button < info@.profiles[profile as int].buttons.len(),
                SinowealthLoadPhase::Done => true,
                _ => false,
            },
    {
        assert(info@.profiles.len() == info.profiles.len());
        let ghost target = enter_macro(info@.profiles, from_profile as int, from_button as int);
        let mut p: usize = from_profile;
        let mut b: usize = from_button;
        while p < info.profiles.len()
            invariant
                info@.profiles.len() == info.profiles.len(),
                target == enter_macro(info@.profiles, from_profile as int, from_button as int),
                target == enter_macro(info@.profiles, p as int, b as int),
            decreases
                    info.profiles@.len() - p,
                    (if p < info.profiles@.len() && b <= info.profiles@[p as int].buttons@.len() {
                        info.profiles@[p as int].buttons@.len() - b
                    } else {
                        0
                    }),
        {
            assert(info@.profiles[p as int] == info.profiles@[p as int]@);
            assert(info@.profiles[p as int].buttons.len()
                == info.profiles@[p as int].buttons.len());
            if b >= info.profiles[p].buttons.len() {
                p += 1;
                b = 0;
            } else {
                assert(info@.profiles[p as int].buttons[b as int]
                    == info.profiles@[p as int].buttons@[b as int]@);
                if info.profiles[p].buttons[b].action_type == ActionType::Macro {
                    return SinowealthLoadPhase::Macro { profile: p, button: b };
                }
                b += 1;
            }
        }
        SinowealthLoadPhase::Done
    }

    /// The next thing to do; `None` at the end.
    pub fn query(&self, data: &SinowealthData, info: &DeviceInfo) -> (r: Option<SinowealthQuery>)
        requires
            self.with(data@, info@).consistent(),
        ensures
            match r {
                Some(q) => self.with(data@, info@).query() == Some(q@),
                None => self.with(data@, info@).query() is None,
            },
    {
        let report: u8 = data_report_id(data.is_long).to_byte();
        let q = match self.phase {
            SinowealthLoadPhase::Config { index } => {
                let cmd = if index == 0 {
                    build_cmd(CommandId::GetConfig)
                } else if index == 1 {
                    build_cmd(CommandId::GetConfig2)
                } else {
                    build_cmd(CommandId::GetConfig3)
                };
                SinowealthQuery { cmd, report, size: 520 }
            },
            SinowealthLoadPhase::Buttons { index } => {
                let cmd = if index == 0 {
                    build_cmd(CommandId::GetButtons)
                } else if index == 1 {
                    build_cmd(CommandId::GetButtons2)
                } else {
                    build_cmd(CommandId::GetButtons3)
                };
                SinowealthQuery { cmd, report, size: 520 }
            },
            SinowealthLoadPhase::Active => SinowealthQuery {
                cmd: build_cmd(CommandId::Profile),
                report: ReportId::Cmd.to_byte(),
                size: 6,
            },
            SinowealthLoadPhase::Macro { profile, button } => SinowealthQuery {
                cmd: build_cmd_with(CommandId::Macro, profile as u8, button as u8),
                report,
                size: 515,
            },
            SinowealthLoadPhase::Done => {
                return None;
            },
            SinowealthLoadPhase::Failed { error: _ } => {
                return None;
            },
        };
        Some(q)
    }

    fn build(&mut self, data: &SinowealthData, info: &mut DeviceInfo)
        requires
            old(self).with(data@, old(info)@).consistent(),
            old(self).phase is Active,
        ensures
            final(self).with(data@, final(info)@) == old(self).with(data@, old(info)@).build(),
            final(self).with(data@, final(info)@).consistent(),
    {
        let ghost target = old(self).with(data@, old(info)@).build();
        let mut profiles: Vec<ProfileInfo> = Vec::new();
        let mut i: usize = 0;
        while i < data.num_profiles
            invariant
                i <= data.num_profiles <= 3,
                data@.num_buttons + 0x10F <= u32::MAX,
                data@.configs.len() >= data.num_profiles,
                data@.buttons.len() >= data.num_profiles,
                profiles@.len() == i,
                forall|k: int| 0 <= k < i ==> (#[trigger] profiles@[k])@ == read_profile(data@, k),
            decreases data.num_profiles - i,
        {
            let mut p = ProfileInfo {
                index: i as u32,
                name: String::new(),
                is_active: i as u32 == data.active_profile as u32,
                is_enabled: true,
                is_dirty: false,
                report_rate: 1000,
                report_rates: report_rate_list(),
                angle_snapping: -1,
                debounce: -1,
                debounces: debounce_time_list(),
                capabilities: Vec::new(),
                resolutions: build_resolutions(data.sensor),
                buttons: build_buttons(data.num_buttons),
                leds: build_leds(data.led_type),
            };
            assert(p@ =~= blank_profile(data@, i as int));
            assert(data@.configs[i as int] == data.configs@[i as int]@);
            assert(data@.buttons[i as int] == data.buttons@[i as int]@);
            parse_config_into_profile(data.sensor, data.led_type, &data.configs[i], &mut p);
            parse_buttons_into_profile(&data.buttons[i], data.num_buttons, &mut p);
            profiles.push(p);
            i += 1;
        }
        info.profiles = profiles;
        assert(info@.profiles =~= target.info.profiles);
        self.phase = SinowealthLoad::at_macro(info, 0, 0);
        assert(self.with(data@, info@) =~= target);
    }

    fn macro_read(
        &mut self,
        data: &SinowealthData,
        info: &mut DeviceInfo,
        profile: usize,
        button: usize,
        reply: &Option<Vec<u8>>,
    )
        requires
            old(self).with(data@, old(info)@).consistent(),
            old(self).phase == (SinowealthLoadPhase::Macro { profile, button }),
        ensures
            final(self).with(data@, final(info)@) == old(self).with(data@, old(info)@).after(
                match reply {
                    Some(v) => Some(v@),
                    None => None,
                },
            ),
            final(self).with(data@, final(info)@).consistent(),
    {
        let ghost before = self.with(data@, info@);
        assert(info@.profiles.len() == info.profiles.len());
        assert(info@.profiles[profile as int] == info.profiles@[profile as int]@);
        assert(info@.profiles[profile as int].buttons.len()
            == info.profiles@[profile as int].buttons.len());
        if let Some(v) = reply {
            let events = parse_macro(v.as_slice());
            proof {
                device::lemma_profiles_view_update(info.profiles@, profile as int);
                device::lemma_buttons_view_update(
                    info.profiles@[profile as int].buttons@,
                    button as int,
                );
            }
            assert(info@.profiles[profile as int].buttons[button as int]
                == info.profiles@[profile as int].buttons@[button as int]@);
            info.profiles[profile].buttons[button].macro_entries = events;
            assert(info@ =~= with_macro(
                before.info,
                profile as int,
                button as int,
                button::macro_events(v@),
            ));
        }
        self.phase = SinowealthLoad::at_macro(info, profile, button + 1);
    }

    /// Takes the report that was read; `None` if it could not be.
    pub fn replied(
        &mut self,
        data: &mut SinowealthData,
        info: &mut DeviceInfo,
        reply: &Option<Vec<u8>>,
    )
        requires
            old(self).with(old(data)@, old(info)@).consistent(),
            reply matches Some(v) ==> v@.len() == old(self).with(
                old(data)@,
                old(info)@,
            ).reply_size(),
        ensures
            final(self).with(final(data)@, final(info)@) == old(self).with(
                old(data)@,
                old(info)@,
            ).after(
                match reply {
                    Some(v) => Some(v@),
                    None => None,
                },
            ),
            final(self).with(final(data)@, final(info)@).consistent(),
    {
        let ghost before = self.with(data@, info@);
        match self.phase {
            SinowealthLoadPhase::Config { index } => {
                match reply {
                    Some(v) => {
                        let copy = v.clone();
                        assert(copy@ =~= v@);
                        data.configs.push(copy);
                        assert(data@ =~= (DataModel {
                            configs: before.data.configs.push(v@),
                            ..before.data
                        })) by {
                            assert(data@.configs =~= before.data.configs.push(v@));
                        }
                        self.phase = SinowealthLoad::at_config(data, index + 1);
                    },
                    None => {
                        self.phase = SinowealthLoadPhase::Failed {
                            error: SinowealthError::ReadFailed,
                        };
                    },
                }
            },
            SinowealthLoadPhase::Buttons { index } => {
                match reply {
                    Some(v) => {
                        let copy = v.clone();
                        assert(copy@ =~= v@);
                        data.buttons.push(copy);
                        assert(data@ =~= (DataModel {
                            buttons: before.data.buttons.push(v@),
                            ..before.data
                        })) by {
                            assert(data@.buttons =~= before.data.buttons.push(v@));
                        }
                        self.phase = SinowealthLoad::at_buttons(data, index + 1);
                    },
                    None => {
                        self.phase = SinowealthLoadPhase::Failed {
                            error: SinowealthError::ReadFailed,
                        };
                    },
                }
            },
            SinowealthLoadPhase::Active => {
                if let Some(v) = reply {
                    if v[1] == 0x02 {
                        data.active_profile = v[2];
                    }
                }
                self.build(data, info);
            },
            SinowealthLoadPhase::Macro { profile, button } => {
                self.macro_read(data, info, profile, button, reply);
            },
            SinowealthLoadPhase::Done => {},
            SinowealthLoadPhase::Failed { error: _ } => {},
        }
    }
}

/// A device that has been read has as many profiles as the database says, each
/// with as many buttons.
pub proof fn loaded_device_has_its_shape(s: Loading)
    requires
        s.consistent(),
        s.phase is Active,
    ensures
        s.build().info.profiles.len() == s.data.num_profiles,
        forall|i: int|
            0 <= i < s.data.num_profiles ==> (#[trigger] s.build().info.profiles[i]).buttons.len()
                == s.data.num_buttons && s.build().info.profiles[i].resolutions.len() == 8,
{
}

/// The reports that write the settings of a profile: the command, then the
/// settings.
pub open spec fn config_reports(d: DataModel, i: int, p: ProfileModel) -> Seq<Seq<u8>> {
    seq![
        protocol::command(config_code(i), 0, 0),
        config::with_profile(d.sensor, d.led_type, d.configs[i], p).update(
            0,
            data_report(d.is_long).code(),
        ),
    ]
}

/// The buttons of a profile as they are written.
pub open spec fn written_buttons(d: DataModel, i: int, p: ProfileModel) -> Seq<u8> {
    button::button_report(
        d.buttons[i],
        p.buttons,
        button::buttons_written(d.buttons[i], p.buttons, d.num_buttons as nat),
    )
}

/// The reports that write the macros of the first `n` buttons of a profile.
pub open spec fn macro_reports(d: DataModel, i: int, buttons: Seq<ButtonModel>, n: nat) -> Seq<
    Seq<u8>,
>
    decreases n,
{
    if n == 0 {
        Seq::empty()
    } else {
        let earlier = macro_reports(d, i, buttons, (n - 1) as nat);
        let b = buttons[n - 1];
        if b.action_type is Macro && b.macro_entries.len() > 0 {
            earlier.push(
                protocol::command(CommandId::Macro.code(), i as u8, (n - 1) as u8),
            ).push(
                button::macro_report(
                    data_report(d.is_long).code(),
                    i as u8,
                    (n - 1) as u8,
                    b.macro_entries,
                ),
            )
        } else {
            earlier
        }
    }
}

/// The reports that write the buttons of a profile: the command, the buttons,
/// then the macros.
pub open spec fn button_reports(d: DataModel, i: int, p: ProfileModel) -> Seq<Seq<u8>> {
    seq![
        protocol::command(buttons_code(i), 0, 0),
        written_buttons(d, i, p).update(0, data_report(d.is_long).code()),
    ] + macro_reports(d, i, p.buttons, p.buttons.len())
}

fn push_report(list: &mut Vec<Vec<u8>>, report: Vec<u8>)
    ensures
        reports_view(final(list)@) == reports_view(old(list)@).push(report@),
{
    let ghost bytes = report@;
    list.push(report);
    assert(reports_view(list@) =~= reports_view(old(list)@).push(bytes));
}

fn command_report(cmd: [u8; 6]) -> (r: Vec<u8>)
    ensures
        r@ == cmd@,
{
    let r = bytes::slice(cmd.as_slice(), 0, 6);
    assert(r@ =~= cmd@);
    r
}

impl SinowealthData {
    /// Writes a profile into its settings, and gives the reports to send. Only
    /// the first three profiles can be written.
    pub fn commit_config(&mut self, i: usize, p: &ProfileInfo) -> (r: Result<
        Vec<Vec<u8>>,
        SinowealthError,
    >)
        requires
            i < old(self)@.configs.len(),
            i <= 2 ==> old(self)@.configs[i as int].len() > 0,
        ensures
            ({
                let d = old(self)@;
                let written = config::with_profile(
                    d.sensor,
                    d.led_type,
                    d.configs[i as int],
                    p@,
                );
                match r {
                    Ok(sent) => {
                        &&& i <= 2
                        &&& reports_view(sent@) == config_reports(d, i as int, p@)
                        &&& final(self)@ == (DataModel {
                            configs: d.configs.update(
                                i as int,
                                written.update(0, data_report(d.is_long).code()),
                            ),
                            ..d
                        })
                    },
                    Err(e) => {
                        &&& i > 2
                        &&& e == SinowealthError::InvalidProfile { index: i }
                        &&& final(self)@ == (DataModel {
                            configs: d.configs.update(i as int, written),
                            ..d
                        })
                    },
                }
            }),
    {
        let ghost d = self@;
        assert(d.configs[i as int] == self.configs@[i as int]@);
        let mut cfg: Vec<u8> = self.configs[i].clone();
        assert(cfg@ =~= d.configs[i as int]);
        encode_config_from_profile(self.sensor, self.led_type, &mut cfg, p);
        let cmd = match config_cmd(i) {
            Ok(cmd) => cmd,
            Err(e) => {
                let ghost written = cfg@;
                self.configs[i] = cfg;
                assert(self@.configs =~= d.configs.update(i as int, written));
                return Err(e);
            },
        };
        cfg[0] = data_report_id(self.is_long).to_byte();
        let mut sent: Vec<Vec<u8>> = Vec::new();
        assert(reports_view(sent@) =~= Seq::empty());
        push_report(&mut sent, command_report(build_cmd(cmd)));
        let copy = cfg.clone();
        assert(copy@ =~= cfg@);
        push_report(&mut sent, copy);
        let ghost written = cfg@;
        self.configs[i] = cfg;
        assert(self@.configs =~= d.configs.update(i as int, written));
        assert(reports_view(sent@) =~= config_reports(d, i as int, p@));
        Ok(sent)
    }

    /// Writes the buttons of a profile into its report, and gives the reports
    /// to send, macros among them. Only the first three profiles can be
    /// written.
    pub fn commit_buttons(&mut self, i: usize, p: &ProfileInfo) -> (r: Result<
        Vec<Vec<u8>>,
        SinowealthError,
    >)
        requires
            i < old(self)@.buttons.len(),
            i <= 2 ==> old(self)@.buttons[i as int].len() > 0,
        ensures
            ({
                let d = old(self)@;
                let written = written_buttons(d, i as int, p@);
                match r {
                    Ok(sent) => {
                        &&& i <= 2
                        &&& reports_view(sent@) == button_reports(d, i as int, p@)
                        &&& final(self)@ == (DataModel {
                            buttons: d.buttons.update(
                                i as int,
                                written.update(0, data_report(d.is_long).code()),
                            ),
                            ..d
                        })
                    },
                    Err(e) => {
                        &&& i > 2
                        &&& e == SinowealthError::InvalidProfile { index: i }
                        &&& final(self)@ == (DataModel {
                            buttons: d.buttons.update(i as int, written),
                            ..d
                        })
                    },
                }
            }),
    {
        let ghost d = self@;
        assert(d.buttons[i as int] == self.buttons@[i as int]@);
        let mut buf: Vec<u8> = self.buttons[i].clone();
        assert(buf@ =~= d.buttons[i as int]);
        encode_buttons_from_profile(&mut buf, self.num_buttons, p);
        let cmd = match buttons_cmd(i) {
            Ok(cmd) => cmd,
            Err(e) => {
                let ghost written = buf@;
                self.buttons[i] = buf;
                assert(self@.buttons =~= d.buttons.update(i as int, written));
                return Err(e);
            },
        };
        let report: u8 = data_report_id(self.is_long).to_byte();
        buf[0] = report;
        let mut sent: Vec<Vec<u8>> = Vec::new();
        assert(reports_view(sent@) =~= Seq::empty());
        push_report(&mut sent, command_report(build_cmd(cmd)));
        let copy = buf.clone();
        assert(copy@ =~= buf@);
        push_report(&mut sent, copy);
        let ghost head = seq![
            protocol::command(buttons_code(i as int), 0, 0),
            written_buttons(d, i as int, p@).update(0, data_report(d.is_long).code()),
        ];
        let ghost written = buf@;
        self.buttons[i] = buf;
        assert(self@.buttons =~= d.buttons.update(i as int, written));
        assert(reports_view(sent@) =~= head + macro_reports(d, i as int, p@.buttons, 0));
        assert(p@.buttons.len() == p.buttons@.len());
        let mut b: usize = 0;
        while b < p.buttons.len()
            invariant
                b <= p.buttons@.len(),
                p@.buttons.len() == p.buttons@.len(),
                report == data_report(d.is_long).code(),
                reports_view(sent@) == head + macro_reports(d, i as int, p@.buttons, b as nat),
            decreases p.buttons@.len() - b,
        {
            assert(p@.buttons[b as int] == p.buttons@[b as int]@);
            if p.buttons[b].action_type == ActionType::Macro && p.buttons[b].macro_entries.len()
                > 0 {
                push_report(
                    &mut sent,
                    command_report(build_cmd_with(CommandId::Macro, i as u8, b as u8)),
                );
                let body = build_macro(report, i as u8, b as u8, &p.buttons[b].macro_entries);
                push_report(&mut sent, body);
                assert(reports_view(sent@) =~= head + macro_reports(
                    d,
                    i as int,
                    p@.buttons,
                    (b + 1) as nat,
                ));
            }
            b += 1;
        }
        Ok(sent)
    }
}

/// Whether `i` is the first active profile.
pub open spec fn first_active(profiles: Seq<ProfileModel>, i: int) -> bool {
    &&& 0 <= i < profiles.len()
    &&& profiles[i].is_active
    &&& forall|j: int| 0 <= j < i ==> !(#[trigger] profiles[j]).is_active
}

/// The commands that end a commit: the debounce time of the first profile, if
/// it is set, and the active profile, if there is one.
pub open spec fn closing_commands(profiles: Seq<ProfileModel>) -> Seq<Seq<u8>> {
    let debounce = if profiles.len() > 0 && profiles[0].debounce >= 0 {
        seq![protocol::command(CommandId::Debounce.code(), profiles[0].debounce as u8, 0)]
    } else {
        Seq::empty()
    };
    if exists|i: int| first_active(profiles, i) {
        let p = profiles[choose|i: int| first_active(profiles, i)];
        debounce.push(protocol::command(CommandId::Profile.code(), p.index as u8, 0))
    } else {
        debounce
    }
}

/// The commands that end a commit.
pub fn finish_commit(info: &DeviceInfo) -> (r: Vec<Vec<u8>>)
    ensures
        reports_view(r@) == closing_commands(info@.profiles),
{
    let ghost profiles = info@.profiles;
    assert(profiles.len() == info.profiles.len());
    let mut sent: Vec<Vec<u8>> = Vec::new();
    assert(reports_view(sent@) =~= Seq::empty());
    if info.profiles.len() > 0 {
        assert(profiles[0] == info.profiles@[0]@);
        if info.profiles[0].debounce >= 0 {
            let value: u8 = info.profiles[0].debounce as u8;
            push_report(&mut sent, command_report(build_cmd_with(CommandId::Debounce, value, 0)));
        }
    }
    let ghost debounce = reports_view(sent@);
    assert(debounce =~= if profiles.len() > 0 && profiles[0].debounce >= 0 {
        seq![protocol::command(CommandId::Debounce.code(), profiles[0].debounce as u8, 0)]
    } else {
        Seq::empty()
    });
    let mut i: usize = 0;
    while i < info.profiles.len()
        invariant
            i <= info.profiles@.len(),
            profiles == info@.profiles,
            profiles.len() == info.profiles.len(),
            reports_view(sent@) == debounce,
            debounce == if profiles.len() > 0 && profiles[0].debounce >= 0 {
                seq![protocol::command(CommandId::Debounce.code(), profiles[0].debounce as u8, 0)]
            } else {
                Seq::empty()
            },
            forall|j: int| 0 <= j < i ==> !(#[trigger] profiles[j]).is_active,
        decreases info.profiles@.len() - i,
    {
        assert(profiles[i as int] == info.profiles@[i as int]@);
        if info.profiles[i].is_active {
            proof {
                assert(first_active(profiles, i as int));
                let k = choose|k: int| first_active(profiles, k);
                assert(k == i);
            }
            let index: u8 = info.profiles[i].index as u8;
            push_report(&mut sent, command_report(build_cmd_with(CommandId::Profile, index, 0)));
            return sent;
        }
        i += 1;
    }
    sent
}

} // verus!
