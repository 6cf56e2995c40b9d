//! Device state shared by the DBus objects and the drivers.

use crate::engine::device_database::{
    BusType, DeviceEntry, DpiRange, DriverConfig, DriverConfigModel,
};
use crate::text;
use vstd::prelude::*;
use vstd::string::*;

verus! {

/// Button action types exposed over DBus.
#[derive(Debug, Clone, Copy, PartialEq, Eq, Structural)]
pub enum ActionType {
    NoAction,
    Button,
    Special,
    Key,
    Macro,
    Unknown,
}

impl ActionType {
    /// The number that stands for this type over DBus.
    pub open spec fn code(self) -> u32 {
        match self {
            ActionType::NoAction => 0,
            ActionType::Button => 1,
            ActionType::Special => 2,
            ActionType::Key => 3,
            ActionType::Macro => 4,
            ActionType::Unknown => 1000,
        }
    }

    /// The type that a DBus number stands for.
    pub open spec fn of_code(val: u32) -> ActionType {
        match val {
            0 => ActionType::NoAction,
            1 => ActionType::Button,
            2 => ActionType::Special,
            3 => ActionType::Key,
            4 => ActionType::Macro,
            _ => ActionType::Unknown,
        }
    }

    /// Converts a raw DBus value; every unused number is [`ActionType::Unknown`].
    pub fn from_u32(val: u32) -> (r: Self)
        ensures
            r == ActionType::of_code(val),
    {
        match val {
            0 => ActionType::NoAction,
            1 => ActionType::Button,
            2 => ActionType::Special,
            3 => ActionType::Key,
            4 => ActionType::Macro,
            _ => ActionType::Unknown,
        }
    }

    /// The raw DBus value.
    pub fn to_u32(self) -> (r: u32)
        ensures
            r == self.code(),
    {
        match self {
            ActionType::NoAction => 0,
            ActionType::Button => 1,
            ActionType::Special => 2,
            ActionType::Key => 3,
            ActionType::Macro => 4,
            ActionType::Unknown => 1000,
        }
    }
}

impl Default for ActionType {
    fn default() -> (r: Self)
        ensures
            r == ActionType::NoAction,
    {
        ActionType::NoAction
    }
}

/// Every action type survives its DBus number.
pub proof fn action_type_code_round_trip(a: ActionType)
    ensures
        ActionType::of_code(a.code()) == a,
{
}

/// A compact RGB colour, as LED payloads hold it.
#[derive(Debug, Clone, Copy, PartialEq, Eq, Structural)]
pub struct RgbColor {
    pub r: u8,
    pub g: u8,
    pub b: u8,
}

impl Default for RgbColor {
    fn default() -> (r: Self)
        ensures
            r == (RgbColor { r: 0, g: 0, b: 0 }),
    {
        RgbColor { r: 0, g: 0, b: 0 }
    }
}

/// A colour as exposed over DBus.
#[derive(Debug, Clone, Copy, PartialEq, Eq, Structural)]
pub struct Color {
    pub red: u32,
    pub green: u32,
    pub blue: u32,
}

/// The nearest value a byte can hold.
pub open spec fn clamp_to_byte(v: u32) -> u8 {
    if v > 255 {
        255
    } else {
        v as u8
    }
}

fn min_byte(v: u32) -> (r: u8)
    ensures
        r == clamp_to_byte(v),
{
    if v > 255 {
        255
    } else {
        v as u8
    }
}

impl Color {
    pub open spec fn black() -> Color {
        Color { red: 0, green: 0, blue: 0 }
    }

    /// The colour with every component limited to the range of a byte.
    pub open spec fn rgb(self) -> RgbColor {
        RgbColor {
            r: clamp_to_byte(self.red),
            g: clamp_to_byte(self.green),
            b: clamp_to_byte(self.blue),
        }
    }

    pub open spec fn of_rgb(rgb: RgbColor) -> Color {
        Color { red: rgb.r as u32, green: rgb.g as u32, blue: rgb.b as u32 }
    }

    /// Converts to a compact colour, limiting each component to 255.
    pub fn to_rgb(self) -> (r: RgbColor)
        ensures
            r == self.rgb(),
    {
        RgbColor { r: min_byte(self.red), g: min_byte(self.green), b: min_byte(self.blue) }
    }

    /// Converts from a compact colour.
    pub fn from_rgb(rgb: RgbColor) -> (r: Self)
        ensures
            r == Color::of_rgb(rgb),
    {
        Color { red: rgb.r as u32, green: rgb.g as u32, blue: rgb.b as u32 }
    }
}

impl Default for Color {
    fn default() -> (r: Self)
        ensures
            r == Color::black(),
    {
        Color { red: 0, green: 0, blue: 0 }
    }
}

/// A compact colour survives the trip over DBus.
pub proof fn color_round_trip(rgb: RgbColor)
    ensures
        Color::of_rgb(rgb).rgb() == rgb,
{
}

/// A DBus colour survives the trip through a compact colour exactly when none
/// of its components exceeds 255.
pub proof fn color_compact_round_trip(c: Color)
    ensures
        Color::of_rgb(c.rgb()) == c <==> c.red <= 255 && c.green <= 255 && c.blue <= 255,
{
}

/// LED effect modes exposed over DBus.
#[derive(Debug, Clone, Copy, PartialEq, Eq, Structural)]
pub enum LedMode {
    Off,
    Solid,
    Cycle,
    Breathing,
    ColorWave,
    Starlight,
    TriColor,
}

impl LedMode {
    /// The number that stands for this mode over DBus.
    pub open spec fn code(self) -> u32 {
        match self {
            LedMode::Off => 0,
            LedMode::Solid => 1,
            LedMode::Cycle => 2,
            LedMode::Breathing => 3,
            LedMode::ColorWave => 4,
            LedMode::Starlight => 5,
            LedMode::TriColor => 6,
        }
    }

    /// The mode that a DBus number stands for.
    pub open spec fn of_code(val: u32) -> Option<LedMode> {
        match val {
            0 => Some(LedMode::Off),
            1 => Some(LedMode::Solid),
            2 => Some(LedMode::Cycle),
            3 => Some(LedMode::Breathing),
            4 => Some(LedMode::ColorWave),
            5 => Some(LedMode::Starlight),
            6 => Some(LedMode::TriColor),
            _ => None,
        }
    }

    /// Converts a raw DBus value.
    pub fn from_u32(val: u32) -> (r: Option<LedMode>)
        ensures
            r == LedMode::of_code(val),
    {
        match val {
            0 => Some(LedMode::Off),
            1 => Some(LedMode::Solid),
            2 => Some(LedMode::Cycle),
            3 => Some(LedMode::Breathing),
            4 => Some(LedMode::ColorWave),
            5 => Some(LedMode::Starlight),
            6 => Some(LedMode::TriColor),
            _ => None,
        }
    }

    /// The raw DBus value.
    pub fn to_u32(self) -> (r: u32)
        ensures
            r == self.code(),
    {
        match self {
            LedMode::Off => 0,
            LedMode::Solid => 1,
            LedMode::Cycle => 2,
            LedMode::Breathing => 3,
            LedMode::ColorWave => 4,
            LedMode::Starlight => 5,
            LedMode::TriColor => 6,
        }
    }
}

/// A DBus number names a mode exactly when it is that mode's number.
pub proof fn led_mode_code_round_trip(mode: LedMode, val: u32)
    ensures
        LedMode::of_code(val) == Some(mode) <==> val == mode.code(),
{
}

/// A resolution value, either one for both axes or one per axis.
#[derive(Debug, Clone, Copy, PartialEq, Eq, Structural)]
pub enum Dpi {
    Unknown,
    Unified(u32),
    Separate { x: u32, y: u32 },
}

impl Default for Dpi {
    fn default() -> (r: Self)
        ensures
            r == Dpi::Unknown,
    {
        Dpi::Unknown
    }
}

/// Resolution state.
#[derive(Debug)]
pub struct ResolutionInfo {
    pub index: u32,
    pub dpi: Dpi,
    pub dpi_list: Vec<u32>,
    pub capabilities: Vec<u32>,
    pub is_active: bool,
    pub is_default: bool,
    pub is_disabled: bool,
}

/// The contents of a [`ResolutionInfo`].
#[verifier::ext_equal]
pub struct ResolutionModel {
    pub index: u32,
    pub dpi: Dpi,
    pub dpi_list: Seq<u32>,
    pub capabilities: Seq<u32>,
    pub is_active: bool,
    pub is_default: bool,
    pub is_disabled: bool,
}

impl View for ResolutionInfo {
    type V = ResolutionModel;

    open spec fn view(&self) -> ResolutionModel {
        ResolutionModel {
            index: self.index,
            dpi: self.dpi,
            dpi_list: self.dpi_list@,
            capabilities: self.capabilities@,
            is_active: self.is_active,
            is_default: self.is_default,
            is_disabled: self.is_disabled,
        }
    }
}

impl Clone for ResolutionInfo {
    fn clone(&self) -> (r: Self)
        ensures
            r@ == self@,
    {
        let r = ResolutionInfo {
            index: self.index,
            dpi: self.dpi,
            dpi_list: self.dpi_list.clone(),
            capabilities: self.capabilities.clone(),
            is_active: self.is_active,
            is_default: self.is_default,
            is_disabled: self.is_disabled,
        };
        assert(r@ =~= self@);
        r
    }
}

impl Default for ResolutionInfo {
    fn default() -> (r: Self)
        ensures
            r@ == (ResolutionModel {
                index: 0,
                dpi: Dpi::Unknown,
                dpi_list: Seq::empty(),
                capabilities: Seq::empty(),
                is_active: false,
                is_default: false,
                is_disabled: false,
            }),
    {
        ResolutionInfo {
            index: 0,
            dpi: Dpi::Unknown,
            dpi_list: Vec::new(),
            capabilities: Vec::new(),
            is_active: false,
            is_default: false,
            is_disabled: false,
        }
    }
}

/// Button mapping state.
#[derive(Debug)]
pub struct ButtonInfo {
    pub index: u32,
    pub action_type: ActionType,
    pub action_types: Vec<u32>,
    pub mapping_value: u32,
    pub macro_entries: Vec<(u32, u32)>,
}

/// The contents of a [`ButtonInfo`].
#[verifier::ext_equal]
pub struct ButtonModel {
    pub index: u32,
    pub action_type: ActionType,
    pub action_types: Seq<u32>,
    pub mapping_value: u32,
    pub macro_entries: Seq<(u32, u32)>,
}

impl View for ButtonInfo {
    type V = ButtonModel;

    open spec fn view(&self) -> ButtonModel {
        ButtonModel {
            index: self.index,
            action_type: self.action_type,
            action_types: self.action_types@,
            mapping_value: self.mapping_value,
            macro_entries: self.macro_entries@,
        }
    }
}

impl Clone for ButtonInfo {
    fn clone(&self) -> (r: Self)
        ensures
            r@ == self@,
    {
        let r = ButtonInfo {
            index: self.index,
            action_type: self.action_type,
            action_types: self.action_types.clone(),
            mapping_value: self.mapping_value,
            macro_entries: clone_pairs(&self.macro_entries),
        };
        assert(r@ =~= self@);
        r
    }
}

/// A copy of a list of pairs.
pub(crate) fn clone_pairs(v: &Vec<(u32, u32)>) -> (r: Vec<(u32, u32)>)
    ensures
        r@ == v@,
{
    let mut r: Vec<(u32, u32)> = Vec::new();
    let mut i: usize = 0;
    while i < v.len()
        invariant
            i <= v@.len(),
            r@ == v@.subrange(0, i as int),
        decreases v@.len() - i,
    {
        r.push(v[i]);
        i += 1;
        assert(r@ =~= v@.subrange(0, i as int));
    }
    assert(v@.subrange(0, i as int) =~= v@);
    r
}

impl Default for ButtonInfo {
    fn default() -> (r: Self)
        ensures
            r@ == (ButtonModel {
                index: 0,
                action_type: ActionType::NoAction,
                action_types: Seq::empty(),
                mapping_value: 0,
                macro_entries: Seq::empty(),
            }),
    {
        ButtonInfo {
            index: 0,
            action_type: ActionType::NoAction,
            action_types: Vec::new(),
            mapping_value: 0,
            macro_entries: Vec::new(),
        }
    }
}

/// LED state.
#[derive(Debug)]
pub struct LedInfo {
    pub index: u32,
    pub mode: LedMode,
    pub modes: Vec<LedMode>,
    pub color: Color,
    pub secondary_color: Color,
    pub tertiary_color: Color,
    pub color_depth: u32,
    pub effect_duration: u32,
    pub brightness: u32,
}

/// The contents of a [`LedInfo`].
#[verifier::ext_equal]
pub struct LedModel {
    pub index: u32,
    pub mode: LedMode,
    pub modes: Seq<LedMode>,
    pub color: Color,
    pub secondary_color: Color,
    pub tertiary_color: Color,
    pub color_depth: u32,
    pub effect_duration: u32,
    pub brightness: u32,
}

impl View for LedInfo {
    type V = LedModel;

    open spec fn view(&self) -> LedModel {
        LedModel {
            index: self.index,
            mode: self.mode,
            modes: self.modes@,
            color: self.color,
            secondary_color: self.secondary_color,
            tertiary_color: self.tertiary_color,
            color_depth: self.color_depth,
            effect_duration: self.effect_duration,
            brightness: self.brightness,
        }
    }
}

impl Clone for LedInfo {
    fn clone(&self) -> (r: Self)
        ensures
            r@ == self@,
    {
        let r = LedInfo {
            index: self.index,
            mode: self.mode,
            modes: self.modes.clone(),
            color: self.color,
            secondary_color: self.secondary_color,
            tertiary_color: self.tertiary_color,
            color_depth: self.color_depth,
            effect_duration: self.effect_duration,
            brightness: self.brightness,
        };
        assert(r@ =~= self@);
        r
    }
}

/// Profile capability: the profile can be made the default one.
pub const RATBAG_PROFILE_CAP_SET_DEFAULT: u32 = 101;

/// Profile capability: the profile can be disabled.
pub const RATBAG_PROFILE_CAP_DISABLE: u32 = 102;

/// Resolution capability: each resolution has a report rate of its own.
pub const RATBAG_RESOLUTION_CAP_INDIVIDUAL_REPORT_RATE: u32 = 1;

/// Resolution capability: the two axes may differ.
pub const RATBAG_RESOLUTION_CAP_SEPARATE_XY_RESOLUTION: u32 = 2;

/// Resolution capability: the resolution can be disabled.
pub const RATBAG_RESOLUTION_CAP_DISABLE: u32 = 3;

/// The lowest report rate (Hz).
pub const REPORT_RATE_MIN: u32 = 125;

/// The highest report rate (Hz).
pub const REPORT_RATE_MAX: u32 = 8000;

/// Profile state.
#[derive(Debug)]
pub struct ProfileInfo {
    pub index: u32,
    pub name: String,
    pub is_active: bool,
    pub is_enabled: bool,
    pub is_dirty: bool,
    pub report_rate: u32,
    pub report_rates: Vec<u32>,
    pub angle_snapping: i32,
    pub debounce: i32,
    pub debounces: Vec<u32>,
    pub capabilities: Vec<u32>,
    pub resolutions: Vec<ResolutionInfo>,
    pub buttons: Vec<ButtonInfo>,
    pub leds: Vec<LedInfo>,
}

/// The contents of a [`ProfileInfo`].
#[verifier::ext_equal]
pub struct ProfileModel {
    pub index: u32,
    pub name: Seq<char>,
    pub is_active: bool,
    pub is_enabled: bool,
    pub is_dirty: bool,
    pub report_rate: u32,
    pub report_rates: Seq<u32>,
    pub angle_snapping: i32,
    pub debounce: i32,
    pub debounces: Seq<u32>,
    pub capabilities: Seq<u32>,
    pub resolutions: Seq<ResolutionModel>,
    pub buttons: Seq<ButtonModel>,
    pub leds: Seq<LedModel>,
}

/// The contents of a list of resolutions.
pub open spec fn resolutions_view(s: Seq<ResolutionInfo>) -> Seq<ResolutionModel> {
    s.map_values(|r: ResolutionInfo| r@)
}

/// The contents of a list of buttons.
pub open spec fn buttons_view(s: Seq<ButtonInfo>) -> Seq<ButtonModel> {
    s.map_values(|b: ButtonInfo| b@)
}

/// The contents of a list of LEDs.
pub open spec fn leds_view(s: Seq<LedInfo>) -> Seq<LedModel> {
    s.map_values(|l: LedInfo| l@)
}

/// The contents of a list of profiles.
pub open spec fn profiles_view(s: Seq<ProfileInfo>) -> Seq<ProfileModel> {
    s.map_values(|p: ProfileInfo| p@)
}

impl View for ProfileInfo {
    type V = ProfileModel;

    open spec fn view(&self) -> ProfileModel {
        ProfileModel {
            index: self.index,
            name: self.name@,
            is_active: self.is_active,
            is_enabled: self.is_enabled,
            is_dirty: self.is_dirty,
            report_rate: self.report_rate,
            report_rates: self.report_rates@,
            angle_snapping: self.angle_snapping,
            debounce: self.debounce,
            debounces: self.debounces@,
            capabilities: self.capabilities@,
            resolutions: resolutions_view(self.resolutions@),
            buttons: buttons_view(self.buttons@),
            leds: leds_view(self.leds@),
        }
    }
}

impl Clone for ProfileInfo {
    fn clone(&self) -> (r: Self)
        ensures
            r@ == self@,
    {
        let r = ProfileInfo {
            index: self.index,
            name: self.name.clone(),
            is_active: self.is_active,
            is_enabled: self.is_enabled,
            is_dirty: self.is_dirty,
            report_rate: self.report_rate,
            report_rates: self.report_rates.clone(),
            angle_snapping: self.angle_snapping,
            debounce: self.debounce,
            debounces: self.debounces.clone(),
            capabilities: self.capabilities.clone(),
            resolutions: self.resolutions.clone(),
            buttons: self.buttons.clone(),
            leds: self.leds.clone(),
        };
        assert(r@ =~~= self@);
        r
    }
}

impl ProfileModel {
    /// A profile with every number zero and every list empty.
    pub open spec fn empty() -> ProfileModel {
        ProfileModel {
            index: 0,
            name: Seq::empty(),
            is_active: false,
            is_enabled: false,
            is_dirty: false,
            report_rate: 0,
            report_rates: Seq::empty(),
            angle_snapping: 0,
            debounce: 0,
            debounces: Seq::empty(),
            capabilities: Seq::empty(),
            resolutions: Seq::empty(),
            buttons: Seq::empty(),
            leds: Seq::empty(),
        }
    }
}

impl Default for ProfileInfo {
    fn default() -> (r: Self)
        ensures
            r@ == ProfileModel::empty(),
    {
        let r = ProfileInfo {
            index: 0,
            name: String::new(),
            is_active: false,
            is_enabled: false,
            is_dirty: false,
            report_rate: 0,
            report_rates: Vec::new(),
            angle_snapping: 0,
            debounce: 0,
            debounces: Vec::new(),
            capabilities: Vec::new(),
            resolutions: Vec::new(),
            buttons: Vec::new(),
            leds: Vec::new(),
        };
        assert(r@ =~~= ProfileModel::empty());
        r
    }
}

/// Device state synced from hardware.
#[derive(Debug)]
pub struct DeviceInfo {
    pub sysname: String,
    pub name: String,
    pub model: String,
    pub firmware_version: String,
    /// 0 = unspecified, 1 = other, 2 = mouse, 3 = keyboard.
    pub device_type: u32,
    pub profiles: Vec<ProfileInfo>,
    pub driver_config: DriverConfig,
}

/// The contents of a [`DeviceInfo`].
#[verifier::ext_equal]
pub struct DeviceModel {
    pub sysname: Seq<char>,
    pub name: Seq<char>,
    pub model: Seq<char>,
    pub firmware_version: Seq<char>,
    pub device_type: u32,
    pub profiles: Seq<ProfileModel>,
    pub driver_config: DriverConfigModel,
}

impl View for DeviceInfo {
    type V = DeviceModel;

    open spec fn view(&self) -> DeviceModel {
        DeviceModel {
            sysname: self.sysname@,
            name: self.name@,
            model: self.model@,
            firmware_version: self.firmware_version@,
            device_type: self.device_type,
            profiles: profiles_view(self.profiles@),
            driver_config: self.driver_config@,
        }
    }
}

impl Clone for DeviceInfo {
    fn clone(&self) -> (r: Self)
        ensures
            r@ == self@,
    {
        let r = DeviceInfo {
            sysname: self.sysname.clone(),
            name: self.name.clone(),
            model: self.model.clone(),
            firmware_version: self.firmware_version.clone(),
            device_type: self.device_type,
            profiles: self.profiles.clone(),
            driver_config: self.driver_config.clone(),
        };
        assert(r@ =~~= self@);
        r
    }
}

/// Whether `i` is the first place where `keys` holds `id`.
pub open spec fn is_first(keys: Seq<u32>, id: u32, i: int) -> bool {
    &&& 0 <= i < keys.len()
    &&& keys[i] == id
    &&& forall|j: int| 0 <= j < i ==> keys[j] != id
}

/// The first place where `keys` holds `id`.
pub open spec fn position(keys: Seq<u32>, id: u32) -> Option<int> {
    if exists|i: int| is_first(keys, id, i) {
        Some(choose|i: int| is_first(keys, id, i))
    } else {
        None
    }
}

/// There is only one first place.
pub proof fn lemma_position_found(keys: Seq<u32>, id: u32, i: int)
    requires
        is_first(keys, id, i),
    ensures
        position(keys, id) == Some(i),
{
    let k = choose|k: int| is_first(keys, id, k);
    assert(is_first(keys, id, k));
    assert(k == i);
}

/// A key that occurs has a first place.
pub proof fn lemma_position_total(keys: Seq<u32>, id: u32)
    ensures
        position(keys, id) is Some <==> keys.contains(id),
        position(keys, id) is Some ==> is_first(keys, id, position(keys, id)->0),
{
    if keys.contains(id) {
        let i = choose|i: int| 0 <= i < keys.len() && keys[i] == id;
        lemma_first_exists(keys, id, i);
    }
}

proof fn lemma_first_exists(keys: Seq<u32>, id: u32, i: int)
    requires
        0 <= i < keys.len(),
        keys[i] == id,
    ensures
        exists|k: int| is_first(keys, id, k),
    decreases i,
{
    if forall|j: int| 0 <= j < i ==> keys[j] != id {
        assert(is_first(keys, id, i));
    } else {
        let j = choose|j: int| 0 <= j < i && keys[j] == id;
        lemma_first_exists(keys, id, j);
    }
}

impl ProfileModel {
    /// The index fields of the resolutions, in order.
    pub open spec fn resolution_ids(self) -> Seq<u32> {
        self.resolutions.map_values(|x: ResolutionModel| x.index)
    }

    /// The profile with its first resolution of that index replaced by `f` of it and
    /// the dirty flag set; the same profile if no resolution has that index.
    pub open spec fn update_resolution(self, id: u32, f: spec_fn(ResolutionModel) -> ResolutionModel) -> ProfileModel {
        match position(self.resolution_ids(), id) {
            Some(i) => ProfileModel {
                resolutions: self.resolutions.update(i, f(self.resolutions[i])),
                is_dirty: true,
                ..self
            },
            None => self,
        }
    }

    /// The index fields of the buttons, in order.
    pub open spec fn button_ids(self) -> Seq<u32> {
        self.buttons.map_values(|x: ButtonModel| x.index)
    }

    /// The profile with its first button of that index replaced by `f` of it and
    /// the dirty flag set; the same profile if no button has that index.
    pub open spec fn update_button(self, id: u32, f: spec_fn(ButtonModel) -> ButtonModel) -> ProfileModel {
        match position(self.button_ids(), id) {
            Some(i) => ProfileModel {
                buttons: self.buttons.update(i, f(self.buttons[i])),
                is_dirty: true,
                ..self
            },
            None => self,
        }
    }

    /// The index fields of the leds, in order.
    pub open spec fn led_ids(self) -> Seq<u32> {
        self.leds.map_values(|x: LedModel| x.index)
    }

    /// The profile with its first led of that index replaced by `f` of it and
    /// the dirty flag set; the same profile if no led has that index.
    pub open spec fn update_led(self, id: u32, f: spec_fn(LedModel) -> LedModel) -> ProfileModel {
        match position(self.led_ids(), id) {
            Some(i) => ProfileModel {
                leds: self.leds.update(i, f(self.leds[i])),
                is_dirty: true,
                ..self
            },
            None => self,
        }
    }

}

impl DeviceModel {
    /// The index fields of the profiles, in order.
    pub open spec fn profile_ids(self) -> Seq<u32> {
        self.profiles.map_values(|p: ProfileModel| p.index)
    }

    /// The device with its first profile of that index replaced by `f` of it;
    /// the same device if no profile has that index.
    pub open spec fn update_profile(self, id: u32, f: spec_fn(ProfileModel) -> ProfileModel) -> DeviceModel {
        match position(self.profile_ids(), id) {
            Some(i) => DeviceModel { profiles: self.profiles.update(i, f(self.profiles[i])), ..self },
            None => self,
        }
    }
}

impl ProfileInfo {
    /// The first resolution whose `index` field is `id`.
    pub fn find_resolution(&self, id: u32) -> (r: Option<&ResolutionInfo>)
        ensures
            match position(self@.resolution_ids(), id) {
                Some(i) => r is Some && r->0@ == self@.resolutions[i],
                None => r is None,
            },
    {
        let mut i: usize = 0;
        while i < self.resolutions.len()
            invariant
                i <= self.resolutions@.len(),
                forall|j: int| 0 <= j < i ==> self@.resolution_ids()[j] != id,
            decreases self.resolutions@.len() - i,
        {
            if self.resolutions[i].index == id {
                proof {
                    lemma_position_found(self@.resolution_ids(), id, i as int);
                }
                return Some(&self.resolutions[i]);
            }
            i += 1;
        }
        proof {
            lemma_position_total(self@.resolution_ids(), id);
        }
        None
    }

    /// The first resolution whose `index` field is `id`, for modification.
    pub fn find_resolution_mut(&mut self, id: u32) -> (r: Option<&mut ResolutionInfo>)
        ensures
            match position(old(self)@.resolution_ids(), id) {
                Some(i) => {
                    &&& r is Some
                    &&& r->0@ == old(self)@.resolutions[i]
                    &&& final(self)@ == (ProfileModel {
                        resolutions: old(self)@.resolutions.update(i, final(r->0)@),
                        ..old(self)@
                    })
                },
                None => r is None && *final(self) == *old(self),
            },
    {
        let mut i: usize = 0;
        while i < self.resolutions.len()
            invariant
                i <= self.resolutions@.len(),
                *self == *old(self),
                forall|j: int| 0 <= j < i ==> self@.resolution_ids()[j] != id,
            decreases self.resolutions@.len() - i,
        {
            if self.resolutions[i].index == id {
                proof {
                    lemma_position_found(self@.resolution_ids(), id, i as int);
                    lemma_resolutions_view_update(self.resolutions@, i as int);
                }
                return Some(&mut self.resolutions[i]);
            }
            i += 1;
        }
        proof {
            lemma_position_total(self@.resolution_ids(), id);
        }
        None
    }

    /// The first button whose `index` field is `id`.
    pub fn find_button(&self, id: u32) -> (r: Option<&ButtonInfo>)
        ensures
            match position(self@.button_ids(), id) {
                Some(i) => r is Some && r->0@ == self@.buttons[i],
                None => r is None,
            },
    {
        let mut i: usize = 0;
        while i < self.buttons.len()
            invariant
                i <= self.buttons@.len(),
                forall|j: int| 0 <= j < i ==> self@.button_ids()[j] != id,
            decreases self.buttons@.len() - i,
        {
            if self.buttons[i].index == id {
                proof {
                    lemma_position_found(self@.button_ids(), id, i as int);
                }
                return Some(&self.buttons[i]);
            }
            i += 1;
        }
        proof {
            lemma_position_total(self@.button_ids(), id);
        }
        None
    }

    /// The first button whose `index` field is `id`, for modification.
    pub fn find_button_mut(&mut self, id: u32) -> (r: Option<&mut ButtonInfo>)
        ensures
            match position(old(self)@.button_ids(), id) {
                Some(i) => {
                    &&& r is Some
                    &&& r->0@ == old(self)@.buttons[i]
                    &&& final(self)@ == (ProfileModel {
                        buttons: old(self)@.buttons.update(i, final(r->0)@),
                        ..old(self)@
                    })
                },
                None => r is None && *final(self) == *old(self),
            },
    {
        let mut i: usize = 0;
        while i < self.buttons.len()
            invariant
                i <= self.buttons@.len(),
                *self == *old(self),
                forall|j: int| 0 <= j < i ==> self@.button_ids()[j] != id,
            decreases self.buttons@.len() - i,
        {
            if self.buttons[i].index == id {
                proof {
                    lemma_position_found(self@.button_ids(), id, i as int);
                    lemma_buttons_view_update(self.buttons@, i as int);
                }
                return Some(&mut self.buttons[i]);
            }
            i += 1;
        }
        proof {
            lemma_position_total(self@.button_ids(), id);
        }
        None
    }

    /// The first led whose `index` field is `id`.
    pub fn find_led(&self, id: u32) -> (r: Option<&LedInfo>)
        ensures
            match position(self@.led_ids(), id) {
                Some(i) => r is Some && r->0@ == self@.leds[i],
                None => r is None,
            },
    {
        let mut i: usize = 0;
        while i < self.leds.len()
            invariant
                i <= self.leds@.len(),
                forall|j: int| 0 <= j < i ==> self@.led_ids()[j] != id,
            decreases self.leds@.len() - i,
        {
            if self.leds[i].index == id {
                proof {
                    lemma_position_found(self@.led_ids(), id, i as int);
                }
                return Some(&self.leds[i]);
            }
            i += 1;
        }
        proof {
            lemma_position_total(self@.led_ids(), id);
        }
        None
    }

    /// The first led whose `index` field is `id`, for modification.
    pub fn find_led_mut(&mut self, id: u32) -> (r: Option<&mut LedInfo>)
        ensures
            match position(old(self)@.led_ids(), id) {
                Some(i) => {
                    &&& r is Some
                    &&& r->0@ == old(self)@.leds[i]
                    &&& final(self)@ == (ProfileModel {
                        leds: old(self)@.leds.update(i, final(r->0)@),
                        ..old(self)@
                    })
                },
                None => r is None && *final(self) == *old(self),
            },
    {
        let mut i: usize = 0;
        while i < self.leds.len()
            invariant
                i <= self.leds@.len(),
                *self == *old(self),
                forall|j: int| 0 <= j < i ==> self@.led_ids()[j] != id,
            decreases self.leds@.len() - i,
        {
            if self.leds[i].index == id {
                proof {
                    lemma_position_found(self@.led_ids(), id, i as int);
                    lemma_leds_view_update(self.leds@, i as int);
                }
                return Some(&mut self.leds[i]);
            }
            i += 1;
        }
        proof {
            lemma_position_total(self@.led_ids(), id);
        }
        None
    }

}

impl DeviceInfo {
    /// The first profile whose `index` field is `id`.
    pub fn find_profile(&self, id: u32) -> (r: Option<&ProfileInfo>)
        ensures
            match position(self@.profile_ids(), id) {
                Some(i) => r is Some && r->0@ == self@.profiles[i],
                None => r is None,
            },
    {
        let mut i: usize = 0;
        while i < self.profiles.len()
            invariant
                i <= self.profiles@.len(),
                forall|j: int| 0 <= j < i ==> self@.profile_ids()[j] != id,
            decreases self.profiles@.len() - i,
        {
            if self.profiles[i].index == id {
                proof {
                    lemma_position_found(self@.profile_ids(), id, i as int);
                }
                return Some(&self.profiles[i]);
            }
            i += 1;
        }
        proof {
            lemma_position_total(self@.profile_ids(), id);
        }
        None
    }

    /// The first profile whose `index` field is `id`, for modification.
    pub fn find_profile_mut(&mut self, id: u32) -> (r: Option<&mut ProfileInfo>)
        ensures
            match position(old(self)@.profile_ids(), id) {
                Some(i) => {
                    &&& r is Some
                    &&& r->0@ == old(self)@.profiles[i]
                    &&& final(self)@ == (DeviceModel {
                        profiles: old(self)@.profiles.update(i, final(r->0)@),
                        ..old(self)@
                    })
                },
                None => r is None && *final(self) == *old(self),
            },
    {
        let mut i: usize = 0;
        while i < self.profiles.len()
            invariant
                i <= self.profiles@.len(),
                *self == *old(self),
                forall|j: int| 0 <= j < i ==> self@.profile_ids()[j] != id,
            decreases self.profiles@.len() - i,
        {
            if self.profiles[i].index == id {
                proof {
                    lemma_position_found(self@.profile_ids(), id, i as int);
                    lemma_profiles_view_update(self.profiles@, i as int);
                }
                return Some(&mut self.profiles[i]);
            }
            i += 1;
        }
        proof {
            lemma_position_total(self@.profile_ids(), id);
        }
        None
    }

}

pub(crate) proof fn lemma_profiles_view_update(s: Seq<ProfileInfo>, i: int)
    requires
        0 <= i < s.len(),
    ensures
        forall|x: ProfileInfo|
            profiles_view(#[trigger] s.update(i, x)) == profiles_view(s).update(i, x@),
{
    assert forall|x: ProfileInfo| profiles_view(#[trigger] s.update(i, x)) == profiles_view(s).update(
        i,
        x@,
    ) by {
        assert(profiles_view(s.update(i, x)) =~= profiles_view(s).update(i, x@));
    }
}

pub(crate) proof fn lemma_resolutions_view_update(s: Seq<ResolutionInfo>, i: int)
    requires
        0 <= i < s.len(),
    ensures
        forall|x: ResolutionInfo|
            resolutions_view(#[trigger] s.update(i, x)) == resolutions_view(s).update(i, x@),
{
    assert forall|x: ResolutionInfo| resolutions_view(#[trigger] s.update(i, x)) == resolutions_view(s).update(
        i,
        x@,
    ) by {
        assert(resolutions_view(s.update(i, x)) =~= resolutions_view(s).update(i, x@));
    }
}

pub(crate) proof fn lemma_buttons_view_update(s: Seq<ButtonInfo>, i: int)
    requires
        0 <= i < s.len(),
    ensures
        forall|x: ButtonInfo|
            buttons_view(#[trigger] s.update(i, x)) == buttons_view(s).update(i, x@),
{
    assert forall|x: ButtonInfo| buttons_view(#[trigger] s.update(i, x)) == buttons_view(s).update(
        i,
        x@,
    ) by {
        assert(buttons_view(s.update(i, x)) =~= buttons_view(s).update(i, x@));
    }
}

pub(crate) proof fn lemma_leds_view_update(s: Seq<LedInfo>, i: int)
    requires
        0 <= i < s.len(),
    ensures
        forall|x: LedInfo|
            leds_view(#[trigger] s.update(i, x)) == leds_view(s).update(i, x@),
{
    assert forall|x: LedInfo| leds_view(#[trigger] s.update(i, x)) == leds_view(s).update(
        i,
        x@,
    ) by {
        assert(leds_view(s.update(i, x)) =~= leds_view(s).update(i, x@));
    }
}

impl DeviceInfo {
    pub fn with_resolution_disabled(&self, profile_id: u32, resolution_id: u32, disabled: bool) -> (r: Self)
        ensures
            r@ == self@.update_profile(
                profile_id,
                |p: ProfileModel|
                    p.update_resolution(resolution_id, |x: ResolutionModel| ResolutionModel { is_disabled: disabled, ..x }),
            ),
    {
        let mut next = self.clone();
        if let Some(profile) = next.find_profile_mut(profile_id) {
            if let Some(res) = profile.find_resolution_mut(resolution_id) {
                res.is_disabled = disabled;
                profile.is_dirty = true;
            }
        }
        next
    }

    pub fn with_resolution_dpi(&self, profile_id: u32, resolution_id: u32, dpi: Dpi) -> (r: Self)
        ensures
            r@ == self@.update_profile(
                profile_id,
                |p: ProfileModel|
                    p.update_resolution(resolution_id, |x: ResolutionModel| ResolutionModel { dpi, ..x }),
            ),
    {
        let mut next = self.clone();
        if let Some(profile) = next.find_profile_mut(profile_id) {
            if let Some(res) = profile.find_resolution_mut(resolution_id) {
                res.dpi = dpi;
                profile.is_dirty = true;
            }
        }
        next
    }

    pub fn with_profile_name(&self, profile_id: u32, name: String) -> (r: Self)
        ensures
            r@ == self@.update_profile(
                profile_id,
                |p: ProfileModel| ProfileModel { name: name@, is_dirty: true, ..p },
            ),
    {
        let mut next = self.clone();
        if let Some(profile) = next.find_profile_mut(profile_id) {
            profile.name = name;
            profile.is_dirty = true;
        }
        next
    }

    pub fn with_profile_disabled(&self, profile_id: u32, disabled: bool) -> (r: Self)
        ensures
            r@ == self@.update_profile(
                profile_id,
                |p: ProfileModel| ProfileModel { is_enabled: !disabled, is_dirty: true, ..p },
            ),
    {
        let mut next = self.clone();
        if let Some(profile) = next.find_profile_mut(profile_id) {
            profile.is_enabled = !disabled;
            profile.is_dirty = true;
        }
        next
    }

    pub fn with_profile_angle_snapping(&self, profile_id: u32, value: i32) -> (r: Self)
        ensures
            r@ == self@.update_profile(
                profile_id,
                |p: ProfileModel| ProfileModel { angle_snapping: value, is_dirty: true, ..p },
            ),
    {
        let mut next = self.clone();
        if let Some(profile) = next.find_profile_mut(profile_id) {
            profile.angle_snapping = value;
            profile.is_dirty = true;
        }
        next
    }

    pub fn with_profile_debounce(&self, profile_id: u32, value: i32) -> (r: Self)
        ensures
            r@ == self@.update_profile(
                profile_id,
                |p: ProfileModel| ProfileModel { debounce: value, is_dirty: true, ..p },
            ),
    {
        let mut next = self.clone();
        if let Some(profile) = next.find_profile_mut(profile_id) {
            profile.debounce = value;
            profile.is_dirty = true;
        }
        next
    }

    pub fn with_profile_report_rate(&self, profile_id: u32, rate: u32) -> (r: Self)
        ensures
            r@ == self@.update_profile(
                profile_id,
                |p: ProfileModel| ProfileModel { report_rate: rate, is_dirty: true, ..p },
            ),
    {
        let mut next = self.clone();
        if let Some(profile) = next.find_profile_mut(profile_id) {
            profile.report_rate = rate;
            profile.is_dirty = true;
        }
        next
    }

    pub fn with_button_mapping(&self, profile_id: u32, button_id: u32, action_type: ActionType, mapping_value: u32, macro_entries: Vec<(u32, u32)>) -> (r: Self)
        ensures
            r@ == self@.update_profile(
                profile_id,
                |p: ProfileModel|
                    p.update_button(button_id, |x: ButtonModel| ButtonModel { action_type, mapping_value, macro_entries: macro_entries@, ..x }),
            ),
    {
        let mut next = self.clone();
        if let Some(profile) = next.find_profile_mut(profile_id) {
            if let Some(button) = profile.find_button_mut(button_id) {
                button.action_type = action_type;
                button.mapping_value = mapping_value;
                button.macro_entries = macro_entries;
                profile.is_dirty = true;
            }
        }
        next
    }

    pub fn with_led_mode(&self, profile_id: u32, led_id: u32, mode: LedMode) -> (r: Self)
        ensures
            r@ == self@.update_profile(
                profile_id,
                |p: ProfileModel|
                    p.update_led(led_id, |x: LedModel| LedModel { mode, ..x }),
            ),
    {
        let mut next = self.clone();
        if let Some(profile) = next.find_profile_mut(profile_id) {
            if let Some(led) = profile.find_led_mut(led_id) {
                led.mode = mode;
                profile.is_dirty = true;
            }
        }
        next
    }

    pub fn with_led_color(&self, profile_id: u32, led_id: u32, color: Color) -> (r: Self)
        ensures
            r@ == self@.update_profile(
                profile_id,
                |p: ProfileModel|
                    p.update_led(led_id, |x: LedModel| LedModel { color, ..x }),
            ),
    {
        let mut next = self.clone();
        if let Some(profile) = next.find_profile_mut(profile_id) {
            if let Some(led) = profile.find_led_mut(led_id) {
                led.color = color;
                profile.is_dirty = true;
            }
        }
        next
    }

    pub fn with_led_secondary_color(&self, profile_id: u32, led_id: u32, color: Color) -> (r: Self)
        ensures
            r@ == self@.update_profile(
                profile_id,
                |p: ProfileModel|
                    p.update_led(led_id, |x: LedModel| LedModel { secondary_color: color, ..x }),
            ),
    {
        let mut next = self.clone();
        if let Some(profile) = next.find_profile_mut(profile_id) {
            if let Some(led) = profile.find_led_mut(led_id) {
                led.secondary_color = color;
                profile.is_dirty = true;
            }
        }
        next
    }

    pub fn with_led_tertiary_color(&self, profile_id: u32, led_id: u32, color: Color) -> (r: Self)
        ensures
            r@ == self@.update_profile(
                profile_id,
                |p: ProfileModel|
                    p.update_led(led_id, |x: LedModel| LedModel { tertiary_color: color, ..x }),
            ),
    {
        let mut next = self.clone();
        if let Some(profile) = next.find_profile_mut(profile_id) {
            if let Some(led) = profile.find_led_mut(led_id) {
                led.tertiary_color = color;
                profile.is_dirty = true;
            }
        }
        next
    }

    pub fn with_led_effect_duration(&self, profile_id: u32, led_id: u32, duration: u32) -> (r: Self)
        ensures
            r@ == self@.update_profile(
                profile_id,
                |p: ProfileModel|
                    p.update_led(led_id, |x: LedModel| LedModel { effect_duration: duration, ..x }),
            ),
    {
        let mut next = self.clone();
        if let Some(profile) = next.find_profile_mut(profile_id) {
            if let Some(led) = profile.find_led_mut(led_id) {
                led.effect_duration = duration;
                profile.is_dirty = true;
            }
        }
        next
    }

    pub fn with_led_brightness(&self, profile_id: u32, led_id: u32, brightness: u32) -> (r: Self)
        ensures
            r@ == self@.update_profile(
                profile_id,
                |p: ProfileModel|
                    p.update_led(led_id, |x: LedModel| LedModel { brightness, ..x }),
            ),
    {
        let mut next = self.clone();
        if let Some(profile) = next.find_profile_mut(profile_id) {
            if let Some(led) = profile.find_led_mut(led_id) {
                led.brightness = brightness;
                profile.is_dirty = true;
            }
        }
        next
    }

}

impl ProfileModel {
    /// The profile with no resolution active.
    pub open spec fn without_active_resolution(self) -> ProfileModel {
        ProfileModel {
            resolutions: self.resolutions.map_values(
                |x: ResolutionModel| ResolutionModel { is_active: false, ..x },
            ),
            ..self
        }
    }

    /// The profile with no resolution marked as the default.
    pub open spec fn without_default_resolution(self) -> ProfileModel {
        ProfileModel {
            resolutions: self.resolutions.map_values(
                |x: ResolutionModel| ResolutionModel { is_default: false, ..x },
            ),
            ..self
        }
    }
}

impl DeviceModel {
    /// The device with no profile active.
    pub open spec fn without_active_profile(self) -> DeviceModel {
        DeviceModel {
            profiles: self.profiles.map_values(
                |p: ProfileModel| ProfileModel { is_active: false, ..p },
            ),
            ..self
        }
    }

    /// The device with no profile dirty.
    pub open spec fn without_dirty_flags(self) -> DeviceModel {
        DeviceModel {
            profiles: self.profiles.map_values(
                |p: ProfileModel| ProfileModel { is_dirty: false, ..p },
            ),
            ..self
        }
    }
}

impl ProfileInfo {
    fn clear_active_resolution(&mut self)
        ensures
            final(self)@ == old(self)@.without_active_resolution(),
    {
        let mut i: usize = 0;
        while i < self.resolutions.len()
            invariant
                i <= self.resolutions@.len(),
                self.resolutions@.len() == old(self).resolutions@.len(),
                self@ == (ProfileModel { resolutions: self@.resolutions, ..old(self)@ }),
                forall|j: int|
                    0 <= j < i ==> self@.resolutions[j] == (ResolutionModel {
                        is_active: false,
                        ..old(self)@.resolutions[j]
                    }),
                forall|j: int|
                    i <= j < self.resolutions@.len() ==> self@.resolutions[j] == old(
                        self,
                    )@.resolutions[j],
            decreases self.resolutions@.len() - i,
        {
            proof {
                lemma_resolutions_view_update(self.resolutions@, i as int);
            }
            self.resolutions[i].is_active = false;
            i += 1;
        }
        assert(self@.resolutions =~= old(self)@.without_active_resolution().resolutions);
    }

    fn clear_default_resolution(&mut self)
        ensures
            final(self)@ == old(self)@.without_default_resolution(),
    {
        let mut i: usize = 0;
        while i < self.resolutions.len()
            invariant
                i <= self.resolutions@.len(),
                self.resolutions@.len() == old(self).resolutions@.len(),
                self@ == (ProfileModel { resolutions: self@.resolutions, ..old(self)@ }),
                forall|j: int|
                    0 <= j < i ==> self@.resolutions[j] == (ResolutionModel {
                        is_default: false,
                        ..old(self)@.resolutions[j]
                    }),
                forall|j: int|
                    i <= j < self.resolutions@.len() ==> self@.resolutions[j] == old(
                        self,
                    )@.resolutions[j],
            decreases self.resolutions@.len() - i,
        {
            proof {
                lemma_resolutions_view_update(self.resolutions@, i as int);
            }
            self.resolutions[i].is_default = false;
            i += 1;
        }
        assert(self@.resolutions =~= old(self)@.without_default_resolution().resolutions);
    }

    /// Limits a report rate to the allowed range.
    pub fn clamp_report_rate(rate: u32) -> (r: u32)
        ensures
            r == (if rate < REPORT_RATE_MIN {
                REPORT_RATE_MIN
            } else if rate > REPORT_RATE_MAX {
                REPORT_RATE_MAX
            } else {
                rate
            }),
    {
        if rate < REPORT_RATE_MIN {
            REPORT_RATE_MIN
        } else if rate > REPORT_RATE_MAX {
            REPORT_RATE_MAX
        } else {
            rate
        }
    }

    /// The capabilities of this profile that are exposed over DBus, in the
    /// order in which the profile lists them.
    pub fn dbus_capabilities(&self) -> (r: Vec<u32>)
        ensures
            r@ == self@.capabilities.filter(|c: u32| exposed_capability(c)),
    {
        let mut r: Vec<u32> = Vec::new();
        let mut i: usize = 0;
        while i < self.capabilities.len()
            invariant
                i <= self.capabilities@.len(),
                r@ == self.capabilities@.subrange(0, i as int).filter(
                    |c: u32| exposed_capability(c),
                ),
            decreases self.capabilities@.len() - i,
        {
            let c: u32 = self.capabilities[i];
            proof {
                reveal(Seq::filter);
                let next = self.capabilities@.subrange(0, i as int + 1);
                assert(next.drop_last() =~= self.capabilities@.subrange(0, i as int));
                assert(next.last() == c);
            }
            if c == RATBAG_PROFILE_CAP_SET_DEFAULT || c == RATBAG_PROFILE_CAP_DISABLE {
                r.push(c);
            }
            i += 1;
        }
        assert(self.capabilities@.subrange(0, i as int) =~= self.capabilities@);
        r
    }

    /// The profile name as sent over DBus. Names are text already, so they
    /// pass unchanged.
    pub fn sanitize_name(raw: &str) -> (r: String)
        ensures
            r@ == raw@,
    {
        raw.to_owned()
    }
}

/// Whether a profile capability is exposed over DBus.
pub open spec fn exposed_capability(c: u32) -> bool {
    c == RATBAG_PROFILE_CAP_SET_DEFAULT || c == RATBAG_PROFILE_CAP_DISABLE
}

impl DeviceInfo {
    /// Makes one resolution of a profile the active one.
    pub fn with_active_resolution(&self, profile_id: u32, resolution_id: u32) -> (r: Self)
        ensures
            r@ == self@.update_profile(
                profile_id,
                |p: ProfileModel|
                    p.without_active_resolution().update_resolution(
                        resolution_id,
                        |x: ResolutionModel| ResolutionModel { is_active: true, ..x },
                    ),
            ),
    {
        let mut next = self.clone();
        if let Some(profile) = next.find_profile_mut(profile_id) {
            profile.clear_active_resolution();
            if let Some(res) = profile.find_resolution_mut(resolution_id) {
                res.is_active = true;
                profile.is_dirty = true;
            }
        }
        next
    }

    /// Makes one resolution of a profile the default one.
    pub fn with_default_resolution(&self, profile_id: u32, resolution_id: u32) -> (r: Self)
        ensures
            r@ == self@.update_profile(
                profile_id,
                |p: ProfileModel|
                    p.without_default_resolution().update_resolution(
                        resolution_id,
                        |x: ResolutionModel| ResolutionModel { is_default: true, ..x },
                    ),
            ),
    {
        let mut next = self.clone();
        if let Some(profile) = next.find_profile_mut(profile_id) {
            profile.clear_default_resolution();
            if let Some(res) = profile.find_resolution_mut(resolution_id) {
                res.is_default = true;
                profile.is_dirty = true;
            }
        }
        next
    }

    /// Makes one profile the active one.
    pub fn with_active_profile(&self, profile_id: u32) -> (r: Self)
        ensures
            r@ == self@.without_active_profile().update_profile(
                profile_id,
                |p: ProfileModel| ProfileModel { is_active: true, is_dirty: true, ..p },
            ),
    {
        let mut next = self.clone();
        next.clear_active_profile();
        if let Some(profile) = next.find_profile_mut(profile_id) {
            profile.is_active = true;
            profile.is_dirty = true;
        }
        next
    }

    /// Marks every profile as written to the hardware.
    pub fn with_cleared_dirty_flags(&self) -> (r: Self)
        ensures
            r@ == self@.without_dirty_flags(),
    {
        let mut next = self.clone();
        next.clear_dirty_flags();
        next
    }

    fn clear_active_profile(&mut self)
        ensures
            final(self)@ == old(self)@.without_active_profile(),
    {
        let mut i: usize = 0;
        while i < self.profiles.len()
            invariant
                i <= self.profiles@.len(),
                self.profiles@.len() == old(self).profiles@.len(),
                self@ == (DeviceModel { profiles: self@.profiles, ..old(self)@ }),
                forall|j: int|
                    0 <= j < i ==> self@.profiles[j] == (ProfileModel {
                        is_active: false,
                        ..old(self)@.profiles[j]
                    }),
                forall|j: int|
                    i <= j < self.profiles@.len() ==> self@.profiles[j] == old(self)@.profiles[j],
            decreases self.profiles@.len() - i,
        {
            proof {
                lemma_profiles_view_update(self.profiles@, i as int);
            }
            self.profiles[i].is_active = false;
            i += 1;
        }
        assert(self@.profiles =~= old(self)@.without_active_profile().profiles);
    }

    fn clear_dirty_flags(&mut self)
        ensures
            final(self)@ == old(self)@.without_dirty_flags(),
    {
        let mut i: usize = 0;
        while i < self.profiles.len()
            invariant
                i <= self.profiles@.len(),
                self.profiles@.len() == old(self).profiles@.len(),
                self@ == (DeviceModel { profiles: self@.profiles, ..old(self)@ }),
                forall|j: int|
                    0 <= j < i ==> self@.profiles[j] == (ProfileModel {
                        is_dirty: false,
                        ..old(self)@.profiles[j]
                    }),
                forall|j: int|
                    i <= j < self.profiles@.len() ==> self@.profiles[j] == old(self)@.profiles[j],
            decreases self.profiles@.len() - i,
        {
            proof {
                lemma_profiles_view_update(self.profiles@, i as int);
            }
            self.profiles[i].is_dirty = false;
            i += 1;
        }
        assert(self@.profiles =~= old(self)@.without_dirty_flags().profiles);
    }

}

/// How many values `min`, `min + step`, ... do not exceed `max`.
pub open spec fn stepped_count(min: int, max: int, step: int) -> nat {
    if min > max {
        0
    } else {
        ((max - min) / step + 1) as nat
    }
}

/// The values `min`, `min + step`, ... that do not exceed `max`.
pub open spec fn stepped_range(min: u32, max: u32, step: u32) -> Seq<u32> {
    Seq::new(
        stepped_count(min as int, max as int, step as int),
        |i: int| (min + i * step) as u32,
    )
}

proof fn lemma_stepped_count(min: int, max: int, step: int, n: nat)
    by (nonlinear_arith)
    requires
        step > 0,
        n == 0 ==> min > max,
        n > 0 ==> min + (n - 1) * step <= max,
        min + n * step > max,
    ensures
        stepped_count(min, max, step) == n,
{
    if n > 0 {
        let q = (max - min) / step;
        assert(q * step <= max - min < (q + 1) * step);
        assert(q < n);
        assert(q >= n - 1);
    }
}

/// Lists the values `min`, `min + step`, ... that do not exceed `max`.
pub(crate) fn stepped_list(min: u32, max: u32, step: u32) -> (r: Vec<u32>)
    requires
        step > 0,
    ensures
        r@ == stepped_range(min, max, step),
{
    let mut r: Vec<u32> = Vec::new();
    let mut cur: u64 = min as u64;
    assert(0 * step == 0) by (nonlinear_arith);
    while cur <= max as u64
        invariant
            step > 0,
            cur == min + r@.len() * step,
            r@.len() > 0 ==> min + (r@.len() - 1) * step <= max,
            forall|i: int| 0 <= i < r@.len() ==> r@[i] == min + i * step,
            r@.len() > 0 ==> cur <= max + step,
            cur <= u32::MAX + step,
        decreases max + step - cur,
    {
        let ghost n = r@.len();
        r.push(cur as u32);
        cur += step as u64;
        assert(n * step + step == (n + 1) * step) by (nonlinear_arith);
    }
    proof {
        lemma_stepped_count(min as int, max as int, step as int, r@.len());
    }
    assert(r@ =~= stepped_range(min, max, step));
    r
}

/// The DPI values that a device offers where the database gives no range.
pub open spec fn fallback_dpi_list() -> Seq<u32> {
    seq![800u32, 1600]
}

/// The DPI values that the database lists for a device.
pub open spec fn configured_dpi_list(range: Option<DpiRange>) -> Seq<u32> {
    match range {
        Some(r) => stepped_range(r.min, r.max, r.step),
        None => fallback_dpi_list(),
    }
}

/// A number from the database, or what stands in for it.
pub open spec fn or_default(v: Option<u32>, default: u32) -> u32 {
    match v {
        Some(x) => x,
        None => default,
    }
}

/// The number that stands for a device type, given its lowercase name.
pub open spec fn device_type_code(name: Seq<char>) -> u32 {
    if name == "mouse"@ {
        2
    } else if name == "keyboard"@ {
        3
    } else if name == "other"@ {
        1
    } else {
        0
    }
}

/// The number that stands for a device type, given its lowercase name.
pub fn device_type_from_lowercase(name: &str) -> (r: u32)
    ensures
        r == device_type_code(name@),
{
    if text::str_eq(name, "mouse") {
        2
    } else if text::str_eq(name, "keyboard") {
        3
    } else if text::str_eq(name, "other") {
        1
    } else {
        0
    }
}

/// The model string of a device: bus, vendor, product and version.
pub open spec fn model_string(bustype: u16, vid: u16, pid: u16) -> Seq<char> {
    BusType::of(bustype).text() + ":"@ + text::hex4(vid as int) + ":"@ + text::hex4(pid as int)
        + ":0"@
}

fn build_model_string(bustype: u16, vid: u16, pid: u16) -> (r: String)
    ensures
        r@ == model_string(bustype, vid, pid),
{
    let mut r: String = BusType::from_u16(bustype).name().to_owned();
    r.append(":");
    text::push_hex4(&mut r, vid);
    r.append(":");
    text::push_hex4(&mut r, pid);
    r.append(":0");
    r
}

/// A resolution of a device about which only the database has spoken.
pub open spec fn initial_resolution(index: int, dpi_list: Seq<u32>) -> ResolutionModel {
    ResolutionModel {
        index: index as u32,
        dpi: Dpi::Unified(800),
        dpi_list,
        capabilities: Seq::empty(),
        is_active: index == 0,
        is_default: index == 0,
        is_disabled: false,
    }
}

/// A button of a device about which only the database has spoken.
pub open spec fn initial_button(index: int) -> ButtonModel {
    ButtonModel {
        index: index as u32,
        action_type: ActionType::Button,
        action_types: seq![0u32, 1, 2, 3, 4],
        mapping_value: index as u32,
        macro_entries: Seq::empty(),
    }
}

/// An LED of a device about which only the database has spoken.
pub open spec fn initial_led(index: int) -> LedModel {
    LedModel {
        index: index as u32,
        mode: LedMode::Off,
        modes: seq![
            LedMode::Off,
            LedMode::Solid,
            LedMode::Cycle,
            LedMode::ColorWave,
            LedMode::Starlight,
            LedMode::Breathing,
            LedMode::TriColor,
        ],
        color: Color::black(),
        secondary_color: Color::black(),
        tertiary_color: Color::black(),
        color_depth: 1,
        effect_duration: 0,
        brightness: 255,
    }
}

/// A profile of a device about which only the database has spoken.
pub open spec fn initial_profile(index: int, config: DriverConfigModel) -> ProfileModel {
    ProfileModel {
        index: index as u32,
        name: Seq::empty(),
        is_active: index == 0,
        is_enabled: true,
        is_dirty: false,
        report_rate: 1000,
        report_rates: seq![125u32, 250, 500, 1000],
        angle_snapping: -1i32,
        debounce: -1i32,
        debounces: Seq::empty(),
        capabilities: Seq::empty(),
        resolutions: Seq::new(
            or_default(config.dpis, 1) as nat,
            |i: int| initial_resolution(i, configured_dpi_list(config.dpi_range)),
        ),
        buttons: Seq::new(or_default(config.buttons, 0) as nat, |i: int| initial_button(i)),
        leds: Seq::new(or_default(config.leds, 0) as nat, |i: int| initial_led(i)),
    }
}

fn initial_resolutions(count: u32, dpi_list: &Vec<u32>) -> (r: Vec<ResolutionInfo>)
    ensures
        resolutions_view(r@) == Seq::new(
            count as nat,
            |i: int| initial_resolution(i, dpi_list@),
        ),
{
    let mut r: Vec<ResolutionInfo> = Vec::new();
    let mut i: u32 = 0;
    while i < count
        invariant
            i <= count,
            r@.len() == i,
            forall|j: int| 0 <= j < i ==> (#[trigger] r@[j])@ == initial_resolution(j, dpi_list@),
        decreases count - i,
    {
        let x = ResolutionInfo {
            index: i,
            dpi: Dpi::Unified(800),
            dpi_list: dpi_list.clone(),
            capabilities: Vec::new(),
            is_active: i == 0,
            is_default: i == 0,
            is_disabled: false,
        };
        assert(x@ =~= initial_resolution(i as int, dpi_list@));
        r.push(x);
        i += 1;
    }
    assert(resolutions_view(r@) =~= Seq::new(
        count as nat,
        |i: int| initial_resolution(i, dpi_list@),
    ));
    r
}

fn initial_buttons(count: u32) -> (r: Vec<ButtonInfo>)
    ensures
        buttons_view(r@) == Seq::new(count as nat, |i: int| initial_button(i)),
{
    let mut r: Vec<ButtonInfo> = Vec::new();
    let mut i: u32 = 0;
    while i < count
        invariant
            i <= count,
            r@.len() == i,
            forall|j: int| 0 <= j < i ==> (#[trigger] r@[j])@ == initial_button(j),
        decreases count - i,
    {
        let x = ButtonInfo {
            index: i,
            action_type: ActionType::Button,
            action_types: vec![0, 1, 2, 3, 4],
            mapping_value: i,
            macro_entries: Vec::new(),
        };
        assert(x@ =~= initial_button(i as int));
        r.push(x);
        i += 1;
    }
    assert(buttons_view(r@) =~= Seq::new(count as nat, |i: int| initial_button(i)));
    r
}

fn initial_leds(count: u32) -> (r: Vec<LedInfo>)
    ensures
        leds_view(r@) == Seq::new(count as nat, |i: int| initial_led(i)),
{
    let mut r: Vec<LedInfo> = Vec::new();
    let mut i: u32 = 0;
    while i < count
        invariant
            i <= count,
            r@.len() == i,
            forall|j: int| 0 <= j < i ==> (#[trigger] r@[j])@ == initial_led(j),
        decreases count - i,
    {
        let x = LedInfo {
            index: i,
            mode: LedMode::Off,
            modes: vec![
                LedMode::Off,
                LedMode::Solid,
                LedMode::Cycle,
                LedMode::ColorWave,
                LedMode::Starlight,
                LedMode::Breathing,
                LedMode::TriColor,
            ],
            color: Color::default(),
            secondary_color: Color::default(),
            tertiary_color: Color::default(),
            color_depth: 1,
            effect_duration: 0,
            brightness: 255,
        };
        assert(x@ =~= initial_led(i as int));
        r.push(x);
        i += 1;
    }
    assert(leds_view(r@) =~= Seq::new(count as nat, |i: int| initial_led(i)));
    r
}

impl DeviceInfo {
    /// The state of a device that was just matched against the database.
    pub fn from_entry(
        sysname: &str,
        name: &str,
        bustype: u16,
        vid: u16,
        pid: u16,
        entry: &DeviceEntry,
    ) -> (r: Self)
        requires
            entry.config().dpi_range is Some ==> entry.config().dpi_range->0.step > 0,
        ensures
            r@ == (DeviceModel {
                sysname: sysname@,
                name: name@,
                model: model_string(bustype, vid, pid),
                firmware_version: Seq::empty(),
                device_type: device_type_code(text::lower(entry.device_type@)),
                profiles: Seq::new(
                    or_default(entry.config().profiles, 1) as nat,
                    |i: int| initial_profile(i, entry.config()),
                ),
                driver_config: entry.config(),
            }),
    {
        let config: DriverConfig = match &entry.driver_config {
            Some(c) => c.clone(),
            None => DriverConfig::default(),
        };
        let num_profiles: u32 = config.profiles.unwrap_or(1);
        let num_buttons: u32 = config.buttons.unwrap_or(0);
        let num_leds: u32 = config.leds.unwrap_or(0);
        let num_dpis: u32 = config.dpis.unwrap_or(1);
        let dpi_list: Vec<u32> = match config.dpi_range {
            Some(r) => stepped_list(r.min, r.max, r.step),
            None => vec![800, 1600],
        };
        assert(dpi_list@ =~= configured_dpi_list(config.dpi_range));
        let mut profiles: Vec<ProfileInfo> = Vec::new();
        let mut i: u32 = 0;
        while i < num_profiles
            invariant
                i <= num_profiles,
                profiles@.len() == i,
                num_dpis == or_default(config@.dpis, 1),
                num_buttons == or_default(config@.buttons, 0),
                num_leds == or_default(config@.leds, 0),
                dpi_list@ == configured_dpi_list(config@.dpi_range),
                forall|j: int|
                    0 <= j < i ==> (#[trigger] profiles@[j])@ == initial_profile(j, config@),
            decreases num_profiles - i,
        {
            let p = ProfileInfo {
                index: i,
                name: String::new(),
                is_active: i == 0,
                is_enabled: true,
                is_dirty: false,
                report_rate: 1000,
                report_rates: vec![125, 250, 500, 1000],
                angle_snapping: -1,
                debounce: -1,
                debounces: Vec::new(),
                capabilities: Vec::new(),
                resolutions: initial_resolutions(num_dpis, &dpi_list),
                buttons: initial_buttons(num_buttons),
                leds: initial_leds(num_leds),
            };
            assert(p@ =~= initial_profile(i as int, config@));
            profiles.push(p);
            i += 1;
        }
        assert(profiles_view(profiles@) =~= Seq::new(
            num_profiles as nat,
            |i: int| initial_profile(i, config@),
        ));
        let lower: String = text::to_lowercase(entry.device_type.as_str());
        DeviceInfo {
            sysname: sysname.to_owned(),
            name: name.to_owned(),
            model: build_model_string(bustype, vid, pid),
            firmware_version: String::new(),
            device_type: device_type_from_lowercase(lower.as_str()),
            profiles,
            driver_config: config,
        }
    }
}

} // verus!
