//! Etekcity and Redragon mice: the layout of their reports. Profiles cannot be
//! loaded or written yet.

use crate::bytes;
use vstd::prelude::*;
use vstd::string::*;

verus! {

/// How many profiles a device has.
pub const ETEKCITY_NUM_PROFILES: usize = 5;

/// How many macros a profile has.
pub const ETEKCITY_NUM_MACROS: usize = 11;

pub const ETEKCITY_REPORT_ID_CONFIGURE_PROFILE: u8 = 0x04;

pub const ETEKCITY_REPORT_ID_PROFILE: u8 = 0x05;

/// The settings of a profile.
#[derive(Debug)]
pub struct SettingsReport {
    pub report_id: u8,
    pub twenty_eight: u8,
    pub profile_id: u8,
    pub x_sensitivity: u8,
    pub y_sensitivity: u8,
    pub dpi_mask: u8,
    pub xres: [u8; 6],
    pub yres: [u8; 6],
    pub current_dpi: u8,
    pub _padding1: [u8; 7],
    pub report_rate: u8,
    pub _padding2: [u8; 4],
    pub light: u8,
    pub light_heartbeat: u8,
    pub _padding3: [u8; 5],
}

impl SettingsReport {
    /// The bytes of the report.
    pub open spec fn bytes(self) -> Seq<u8> {
        seq![
            self.report_id,
            self.twenty_eight,
            self.profile_id,
            self.x_sensitivity,
            self.y_sensitivity,
            self.dpi_mask,
        ] + self.xres@ + self.yres@ + seq![self.current_dpi] + self._padding1@ + seq![
            self.report_rate,
        ] + self._padding2@ + seq![self.light, self.light_heartbeat] + self._padding3@
    }
}

impl Default for SettingsReport {
    fn default() -> (r: Self)
        ensures
            r.bytes() == bytes::filled(38, 0),
    {
        let r = SettingsReport {
            report_id: 0,
            twenty_eight: 0,
            profile_id: 0,
            x_sensitivity: 0,
            y_sensitivity: 0,
            dpi_mask: 0,
            xres: [0u8; 6],
            yres: [0u8; 6],
            current_dpi: 0,
            _padding1: [0u8; 7],
            report_rate: 0,
            _padding2: [0u8; 4],
            light: 0,
            light_heartbeat: 0,
            _padding3: [0u8; 5],
        };
        assert(r.bytes() =~= bytes::filled(38, 0));
        r
    }
}

impl Clone for SettingsReport {
    fn clone(&self) -> (r: Self)
        ensures
            r == *self,
    {
        SettingsReport {
            report_id: self.report_id,
            twenty_eight: self.twenty_eight,
            profile_id: self.profile_id,
            x_sensitivity: self.x_sensitivity,
            y_sensitivity: self.y_sensitivity,
            dpi_mask: self.dpi_mask,
            xres: self.xres,
            yres: self.yres,
            current_dpi: self.current_dpi,
            _padding1: self._padding1,
            report_rate: self.report_rate,
            _padding2: self._padding2,
            light: self.light,
            light_heartbeat: self.light_heartbeat,
            _padding3: self._padding3,
        }
    }
}

/// A key of a macro.
#[derive(Debug, Clone, Copy, PartialEq, Eq, Structural)]
pub struct MacroKey {
    pub keycode: u8,
    pub flag: u8,
}

impl Default for MacroKey {
    fn default() -> (r: Self)
        ensures
            r == (MacroKey { keycode: 0, flag: 0 }),
    {
        MacroKey { keycode: 0, flag: 0 }
    }
}

/// What was read from a device.
#[derive(Debug)]
pub struct EtekcityData {
    /// The buttons of each profile.
    pub profiles: Vec<[u8; 50]>,
    /// The settings of each profile.
    pub settings: Vec<SettingsReport>,
    /// The keys of each macro of each profile.
    pub macros: Vec<Vec<[MacroKey; 50]>>,
    pub speed_setting: [u8; 6],
}

/// Whether every key of a macro is empty.
pub open spec fn is_empty_macro(keys: Seq<MacroKey>) -> bool {
    keys == Seq::new(50, |i: int| MacroKey { keycode: 0, flag: 0 })
}

impl EtekcityData {
    /// Whether nothing was read yet.
    pub open spec fn is_blank(self) -> bool {
        &&& self.profiles@.len() == ETEKCITY_NUM_PROFILES
        &&& self.settings@.len() == ETEKCITY_NUM_PROFILES
        &&& self.macros@.len() == ETEKCITY_NUM_PROFILES
        &&& self.speed_setting@ == bytes::filled(6, 0)
        &&& forall|i: int|
            0 <= i < ETEKCITY_NUM_PROFILES ==> (#[trigger] self.profiles@[i])@ == bytes::filled(
                50,
                0,
            )
        &&& forall|i: int|
            0 <= i < ETEKCITY_NUM_PROFILES ==> (#[trigger] self.settings@[i]).bytes()
                == bytes::filled(38, 0)
        &&& forall|i: int|
            0 <= i < ETEKCITY_NUM_PROFILES ==> (#[trigger] self.macros@[i])@.len()
                == ETEKCITY_NUM_MACROS
        &&& forall|i: int, j: int|
            0 <= i < ETEKCITY_NUM_PROFILES && 0 <= j < ETEKCITY_NUM_MACROS ==> is_empty_macro(
                (#[trigger] self.macros@[i]@[j])@,
            )
    }
}

/// Why a device cannot be used.
#[derive(Debug, Clone, Copy, PartialEq, Eq, Structural)]
pub enum EtekcityError {
    /// Profiles cannot be loaded or written yet.
    NotImplemented,
}

/// Driver of Etekcity mice.
#[derive(Debug)]
pub struct EtekcityDriver {
    /// What was read from the device.
    pub data: Option<EtekcityData>,
}

fn empty_macros() -> (r: Vec<[MacroKey; 50]>)
    ensures
        r@.len() == ETEKCITY_NUM_MACROS,
        forall|j: int| 0 <= j < ETEKCITY_NUM_MACROS ==> is_empty_macro((#[trigger] r@[j])@),
{
    let mut r: Vec<[MacroKey; 50]> = Vec::new();
    let mut j: usize = 0;
    while j < ETEKCITY_NUM_MACROS
        invariant
            j <= ETEKCITY_NUM_MACROS,
            r@.len() == j,
            forall|k: int| 0 <= k < j ==> is_empty_macro((#[trigger] r@[k])@),
        decreases ETEKCITY_NUM_MACROS - j,
    {
        let keys: [MacroKey; 50] = [MacroKey { keycode: 0, flag: 0 }; 50];
        assert(keys@ =~= Seq::new(50, |i: int| MacroKey { keycode: 0, flag: 0 }));
        r.push(keys);
        j += 1;
    }
    r
}

/// The question for the current profile.
pub fn profile_query() -> (r: [u8; 3])
    ensures
        r@ == seq![ETEKCITY_REPORT_ID_PROFILE, 0u8, 0],
{
    let r: [u8; 3] = [ETEKCITY_REPORT_ID_PROFILE, 0, 0];
    assert(r@ =~= seq![ETEKCITY_REPORT_ID_PROFILE, 0u8, 0]);
    r
}

impl EtekcityDriver {
    pub fn new() -> (r: Self)
        ensures
            r.data is None,
    {
        EtekcityDriver { data: None }
    }

    /// Notes that the device has answered, and then gives up: there is no more
    /// that the driver can do.
    pub fn probed(&mut self) -> (r: EtekcityError)
        ensures
            r == EtekcityError::NotImplemented,
            final(self).data matches Some(d) && d.is_blank(),
    {
        let mut profiles: Vec<[u8; 50]> = Vec::new();
        let mut settings: Vec<SettingsReport> = Vec::new();
        let mut macros: Vec<Vec<[MacroKey; 50]>> = Vec::new();
        let mut i: usize = 0;
        while i < ETEKCITY_NUM_PROFILES
            invariant
                i <= ETEKCITY_NUM_PROFILES,
                profiles@.len() == i,
                settings@.len() == i,
                macros@.len() == i,
                forall|k: int|
                    0 <= k < i ==> (#[trigger] profiles@[k])@ == bytes::filled(50, 0),
                forall|k: int|
                    0 <= k < i ==> (#[trigger] settings@[k]).bytes() == bytes::filled(38, 0),
                forall|k: int|
                    0 <= k < i ==> (#[trigger] macros@[k])@.len() == ETEKCITY_NUM_MACROS,
                forall|k: int, j: int|
                    0 <= k < i && 0 <= j < ETEKCITY_NUM_MACROS ==> is_empty_macro(
                        (#[trigger] macros@[k]@[j])@,
                    ),
            decreases ETEKCITY_NUM_PROFILES - i,
        {
            let page: [u8; 50] = [0u8; 50];
            assert(page@ =~= bytes::filled(50, 0));
            profiles.push(page);
            settings.push(SettingsReport::default());
            macros.push(empty_macros());
            i += 1;
        }
        let d = EtekcityData { profiles, settings, macros, speed_setting: [0u8; 6] };
        assert(d.speed_setting@ =~= bytes::filled(6, 0));
        self.data = Some(d);
        EtekcityError::NotImplemented
    }
}

/// The report that selects what is read or written of a profile.
pub fn configure_profile_report(profile: u8, config_type: u8) -> (r: [u8; 3])
    ensures
        r@ == seq![ETEKCITY_REPORT_ID_CONFIGURE_PROFILE, profile, config_type],
{
    let r: [u8; 3] = [ETEKCITY_REPORT_ID_CONFIGURE_PROFILE, profile, config_type];
    assert(r@ =~= seq![ETEKCITY_REPORT_ID_CONFIGURE_PROFILE, profile, config_type]);
    r
}

/// The report that makes a profile active.
pub fn set_active_profile_report(index: u8) -> (r: [u8; 3])
    ensures
        r@ == seq![ETEKCITY_REPORT_ID_PROFILE, 0x03u8, index],
{
    let r: [u8; 3] = [ETEKCITY_REPORT_ID_PROFILE, 0x03, index];
    assert(r@ =~= seq![ETEKCITY_REPORT_ID_PROFILE, 0x03u8, index]);
    r
}

/// Where a button stands in the report of a profile; there is a gap behind the
/// first eight.
pub open spec fn raw_index(button: int) -> int {
    if button < 8 {
        button
    } else {
        button + 5
    }
}

/// Where a button stands in the report of a profile.
pub fn button_to_raw_index(button: usize) -> (r: usize)
    requires
        button + 5 <= usize::MAX,
    ensures
        r == raw_index(button as int),
{
    if button < 8 {
        button
    } else {
        button + 5
    }
}

/// Two buttons do not stand at one place.
pub proof fn raw_indices_are_distinct(a: int, b: int)
    requires
        raw_index(a) == raw_index(b),
    ensures
        a == b,
{
}

/// What a byte stands for, in words.
pub open spec fn description(raw: u8) -> Option<Seq<char>> {
    match raw {
        1 => Some("button(1)"@),
        2 => Some("button(2)"@),
        3 => Some("button(3)"@),
        4 => Some("special(double-click)"@),
        6 => Some("none"@),
        7 => Some("button(4)"@),
        8 => Some("button(5)"@),
        9 => Some("special(wheel-up)"@),
        10 => Some("special(wheel-down)"@),
        11 => Some("special(wheel-left)"@),
        12 => Some("special(wheel-right)"@),
        13 => Some("special(dpi-cycle-up)"@),
        14 => Some("special(dpi-up)"@),
        15 => Some("special(dpi-down)"@),
        16 => Some("macro"@),
        18 => Some("special(profile-cycle-up)"@),
        19 => Some("special(profile-up)"@),
        20 => Some("special(profile-down)"@),
        25 => Some("key(KEY_CONFIG)"@),
        26 => Some("key(KEY_PREVIOUSSONG)"@),
        27 => Some("key(KEY_NEXTSONG)"@),
        28 => Some("key(KEY_PLAYPAUSE)"@),
        29 => Some("key(KEY_STOPCD)"@),
        30 => Some("key(KEY_MUTE)"@),
        31 => Some("key(KEY_VOLUMEUP)"@),
        32 => Some("key(KEY_VOLUMEDOWN)"@),
        33 => Some("key(KEY_CALC)"@),
        34 => Some("key(KEY_MAIL)"@),
        35 => Some("key(KEY_BOOKMARKS)"@),
        36 => Some("key(KEY_FORWARD)"@),
        37 => Some("key(KEY_BACK)"@),
        38 => Some("key(KEY_STOP)"@),
        39 => Some("key(KEY_FILE)"@),
        40 => Some("key(KEY_REFRESH)"@),
        41 => Some("key(KEY_HOMEPAGE)"@),
        42 => Some("key(KEY_SEARCH)"@),
        _ => None,
    }
}

/// What a byte stands for, in words.
pub fn raw_to_description(raw: u8) -> (r: Option<&'static str>)
    ensures
        match r {
            Some(s) => description(raw) == Some(s@),
            None => description(raw) is None,
        },
{
    match raw {
        1 => Some("button(1)"),
        2 => Some("button(2)"),
        3 => Some("button(3)"),
        4 => Some("special(double-click)"),
        6 => Some("none"),
        7 => Some("button(4)"),
        8 => Some("button(5)"),
        9 => Some("special(wheel-up)"),
        10 => Some("special(wheel-down)"),
        11 => Some("special(wheel-left)"),
        12 => Some("special(wheel-right)"),
        13 => Some("special(dpi-cycle-up)"),
        14 => Some("special(dpi-up)"),
        15 => Some("special(dpi-down)"),
        16 => Some("macro"),
        18 => Some("special(profile-cycle-up)"),
        19 => Some("special(profile-up)"),
        20 => Some("special(profile-down)"),
        25 => Some("key(KEY_CONFIG)"),
        26 => Some("key(KEY_PREVIOUSSONG)"),
        27 => Some("key(KEY_NEXTSONG)"),
        28 => Some("key(KEY_PLAYPAUSE)"),
        29 => Some("key(KEY_STOPCD)"),
        30 => Some("key(KEY_MUTE)"),
        31 => Some("key(KEY_VOLUMEUP)"),
        32 => Some("key(KEY_VOLUMEDOWN)"),
        33 => Some("key(KEY_CALC)"),
        34 => Some("key(KEY_MAIL)"),
        35 => Some("key(KEY_BOOKMARKS)"),
        36 => Some("key(KEY_FORWARD)"),
        37 => Some("key(KEY_BACK)"),
        38 => Some("key(KEY_STOP)"),
        39 => Some("key(KEY_FILE)"),
        40 => Some("key(KEY_REFRESH)"),
        41 => Some("key(KEY_HOMEPAGE)"),
        42 => Some("key(KEY_SEARCH)"),
        _ => None,
    }
}

} // verus!
