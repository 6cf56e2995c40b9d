//! What the updates of the device state have in common, and what devices look like
//! before anything was read.

use crate::engine::actor;
use crate::engine::device;
use crate::engine::device::{
    ActionType, ButtonModel, Color, DeviceModel, Dpi, LedMode, LedModel, ProfileModel,
    ResolutionModel,
};
use crate::engine::device_database::{BusType, DpiRange, DriverConfigModel};
use crate::engine::special_action;
use crate::engine::test_device;
use crate::engine::test_device::{
    TestButtonSpec, TestDeviceSpec, TestLedSpec, TestResolutionSpec,
};
use crate::hal::transport;
use crate::text;
use vstd::prelude::*;

verus! {

/// Whether `f` leaves the index field of every profile as it is.
pub open spec fn keeps_profile_index(f: spec_fn(ProfileModel) -> ProfileModel) -> bool {
    forall|p: ProfileModel| (#[trigger] f(p)).index == p.index
}

/// Updating a profile changes the first profile of that index, and no other
/// part of the device.
pub proof fn update_profile_changes_one(
    d: DeviceModel,
    id: u32,
    f: spec_fn(ProfileModel) -> ProfileModel,
)
    ensures
        d.update_profile(id, f) == (DeviceModel {
            profiles: d.update_profile(id, f).profiles,
            ..d
        }),
        d.update_profile(id, f).profiles.len() == d.profiles.len(),
        forall|j: int|
            0 <= j < d.profiles.len() ==> #[trigger] d.update_profile(id, f).profiles[j] == (
            if device::is_first(d.profile_ids(), id, j) {
                f(d.profiles[j])
            } else {
                d.profiles[j]
            }),
{
    device::lemma_position_total(d.profile_ids(), id);
    assert forall|j: int| 0 <= j < d.profiles.len() implies #[trigger] d.update_profile(
        id,
        f,
    ).profiles[j] == (if device::is_first(d.profile_ids(), id, j) {
        f(d.profiles[j])
    } else {
        d.profiles[j]
    }) by {
        if device::is_first(d.profile_ids(), id, j) {
            device::lemma_position_found(d.profile_ids(), id, j);
        }
    }
}

/// Updating a profile of an index that no profile has changes nothing.
pub proof fn update_unknown_profile_is_identity(
    d: DeviceModel,
    id: u32,
    f: spec_fn(ProfileModel) -> ProfileModel,
)
    requires
        !d.profile_ids().contains(id),
    ensures
        d.update_profile(id, f) == d,
{
    device::lemma_position_total(d.profile_ids(), id);
}

/// Two updates of the same profile, one after the other, are one update.
pub proof fn update_profile_composes(
    d: DeviceModel,
    id: u32,
    f: spec_fn(ProfileModel) -> ProfileModel,
    g: spec_fn(ProfileModel) -> ProfileModel,
)
    requires
        keeps_profile_index(f),
    ensures
        d.update_profile(id, f).update_profile(id, g) == d.update_profile(
            id,
            |p: ProfileModel| g(f(p)),
        ),
{
    let e = d.update_profile(id, f);
    device::lemma_position_total(d.profile_ids(), id);
    assert(e.profile_ids() =~= d.profile_ids());
    assert(d.update_profile(id, f).update_profile(id, g) =~= d.update_profile(
        id,
        |p: ProfileModel| g(f(p)),
    ));
}

/// Updates of profiles of different indices do not disturb each other.
pub proof fn update_profile_commutes(
    d: DeviceModel,
    a: u32,
    f: spec_fn(ProfileModel) -> ProfileModel,
    b: u32,
    g: spec_fn(ProfileModel) -> ProfileModel,
)
    requires
        a != b,
        keeps_profile_index(f),
        keeps_profile_index(g),
    ensures
        d.update_profile(a, f).update_profile(b, g) == d.update_profile(b, g).update_profile(a, f),
{
    device::lemma_position_total(d.profile_ids(), a);
    device::lemma_position_total(d.profile_ids(), b);
    assert(d.update_profile(a, f).profile_ids() =~= d.profile_ids());
    assert(d.update_profile(b, g).profile_ids() =~= d.profile_ids());
    assert(d.update_profile(a, f).update_profile(b, g) =~= d.update_profile(b, g).update_profile(
        a,
        f,
    ));
}

/// A later value of a profile setting replaces an earlier one: of two report
/// rates set in a row, only the second remains.
pub proof fn last_report_rate_wins(d: DeviceModel, id: u32, first: u32, second: u32)
    ensures
        d.update_profile(
            id,
            |p: ProfileModel| ProfileModel { report_rate: first, is_dirty: true, ..p },
        ).update_profile(
            id,
            |p: ProfileModel| ProfileModel { report_rate: second, is_dirty: true, ..p },
        ) == d.update_profile(
            id,
            |p: ProfileModel| ProfileModel { report_rate: second, is_dirty: true, ..p },
        ),
{
    let f = |p: ProfileModel| ProfileModel { report_rate: first, is_dirty: true, ..p };
    let g = |p: ProfileModel| ProfileModel { report_rate: second, is_dirty: true, ..p };
    update_profile_composes(d, id, f, g);
    assert((|p: ProfileModel| g(f(p))) =~= g);
}

/// Once a profile has been made active, it is active if it exists, and no
/// other profile is.
pub proof fn active_profile_is_unique(d: DeviceModel, id: u32)
    ensures
        ({
            let e = d.without_active_profile().update_profile(
                id,
                |p: ProfileModel| ProfileModel { is_active: true, is_dirty: true, ..p },
            );
            &&& e.profiles.len() == d.profiles.len()
            &&& e.profile_ids() == d.profile_ids()
            &&& forall|j: int|
                0 <= j < d.profiles.len() ==> ((#[trigger] e.profiles[j]).is_active
                    <==> device::is_first(d.profile_ids(), id, j))
        }),
{
    let f = |p: ProfileModel| ProfileModel { is_active: true, is_dirty: true, ..p };
    let c = d.without_active_profile();
    let e = c.update_profile(id, f);
    assert(c.profile_ids() =~= d.profile_ids());
    update_profile_changes_one(c, id, f);
    device::lemma_position_total(d.profile_ids(), id);
    assert(e.profile_ids() =~= d.profile_ids());
}

/// Once a resolution has been made active, it is active if it exists, and no
/// other resolution of that profile is.
pub proof fn active_resolution_is_unique(p: ProfileModel, id: u32)
    ensures
        ({
            let q = p.without_active_resolution().update_resolution(
                id,
                |x: ResolutionModel| ResolutionModel { is_active: true, ..x },
            );
            &&& q.resolutions.len() == p.resolutions.len()
            &&& q.resolution_ids() == p.resolution_ids()
            &&& forall|j: int|
                0 <= j < p.resolutions.len() ==> ((#[trigger] q.resolutions[j]).is_active
                    <==> device::is_first(p.resolution_ids(), id, j))
        }),
{
    let c = p.without_active_resolution();
    let q = c.update_resolution(
        id,
        |x: ResolutionModel| ResolutionModel { is_active: true, ..x },
    );
    assert(c.resolution_ids() =~= p.resolution_ids());
    device::lemma_position_total(p.resolution_ids(), id);
    assert(q.resolution_ids() =~= p.resolution_ids());
    assert forall|j: int| 0 <= j < p.resolutions.len() implies ((
    #[trigger] q.resolutions[j]).is_active <==> device::is_first(p.resolution_ids(), id, j)) by {
        if device::is_first(p.resolution_ids(), id, j) {
            device::lemma_position_found(p.resolution_ids(), id, j);
        }
    }
}

/// Once a resolution has been made the default, it is the default if it
/// exists, and no other resolution of that profile is.
pub proof fn default_resolution_is_unique(p: ProfileModel, id: u32)
    ensures
        ({
            let q = p.without_default_resolution().update_resolution(
                id,
                |x: ResolutionModel| ResolutionModel { is_default: true, ..x },
            );
            &&& q.resolutions.len() == p.resolutions.len()
            &&& q.resolution_ids() == p.resolution_ids()
            &&& forall|j: int|
                0 <= j < p.resolutions.len() ==> ((#[trigger] q.resolutions[j]).is_default
                    <==> device::is_first(p.resolution_ids(), id, j))
        }),
{
    let c = p.without_default_resolution();
    let q = c.update_resolution(
        id,
        |x: ResolutionModel| ResolutionModel { is_default: true, ..x },
    );
    assert(c.resolution_ids() =~= p.resolution_ids());
    device::lemma_position_total(p.resolution_ids(), id);
    assert(q.resolution_ids() =~= p.resolution_ids());
    assert forall|j: int| 0 <= j < p.resolutions.len() implies ((
    #[trigger] q.resolutions[j]).is_default <==> device::is_first(p.resolution_ids(), id, j)) by {
        if device::is_first(p.resolution_ids(), id, j) {
            device::lemma_position_found(p.resolution_ids(), id, j);
        }
    }
}

/// An update of a resolution, a button or an LED marks the profile dirty
/// exactly when the item exists, and leaves the other lists alone.
pub proof fn item_updates_mark_dirty(
    p: ProfileModel,
    id: u32,
    f: spec_fn(ResolutionModel) -> ResolutionModel,
    g: spec_fn(ButtonModel) -> ButtonModel,
    h: spec_fn(LedModel) -> LedModel,
)
    ensures
        p.update_resolution(id, f) == p || p.update_resolution(id, f).is_dirty,
        p.resolution_ids().contains(id) ==> p.update_resolution(id, f).is_dirty,
        !p.resolution_ids().contains(id) ==> p.update_resolution(id, f) == p,
        p.update_resolution(id, f).buttons == p.buttons,
        p.update_resolution(id, f).leds == p.leds,
        p.button_ids().contains(id) ==> p.update_button(id, g).is_dirty,
        !p.button_ids().contains(id) ==> p.update_button(id, g) == p,
        p.update_button(id, g).resolutions == p.resolutions,
        p.update_button(id, g).leds == p.leds,
        p.led_ids().contains(id) ==> p.update_led(id, h).is_dirty,
        !p.led_ids().contains(id) ==> p.update_led(id, h) == p,
        p.update_led(id, h).resolutions == p.resolutions,
        p.update_led(id, h).buttons == p.buttons,
{
    device::lemma_position_total(p.resolution_ids(), id);
    device::lemma_position_total(p.button_ids(), id);
    device::lemma_position_total(p.led_ids(), id);
}

/// After the dirty flags are cleared no profile is dirty, and clearing them
/// again changes nothing.
pub proof fn cleared_dirty_flags_stay_clear(d: DeviceModel)
    ensures
        d.without_dirty_flags().profiles.len() == d.profiles.len(),
        forall|j: int|
            0 <= j < d.profiles.len() ==> !(#[trigger] d.without_dirty_flags().profiles[j]).is_dirty,
        d.without_dirty_flags().without_dirty_flags() == d.without_dirty_flags(),
{
    assert(d.without_dirty_flags().without_dirty_flags() =~= d.without_dirty_flags());
}

/// The numbers that action types and LED modes have on the bus.
pub proof fn bus_codes(a: ActionType, m: LedMode, v: u32)
    ensures
        a is NoAction <==> a.code() == 0,
        a is Button <==> a.code() == 1,
        a is Special <==> a.code() == 2,
        a is Key <==> a.code() == 3,
        a is Macro <==> a.code() == 4,
        a is Unknown <==> a.code() == 1000,
        v > 4 ==> ActionType::of_code(v) is Unknown,
        v <= 4 ==> ActionType::of_code(v).code() == v,
        m is Off <==> m.code() == 0,
        m is Solid <==> m.code() == 1,
        m is Cycle <==> m.code() == 2,
        m is Breathing <==> m.code() == 3,
        m is ColorWave <==> m.code() == 4,
        m is Starlight <==> m.code() == 5,
        m is TriColor <==> m.code() == 6,
        v > 6 ==> LedMode::of_code(v) is None,
        v <= 6 ==> (LedMode::of_code(v) matches Some(mode) && mode.code() == v),
        device::exposed_capability(v) <==> v == 101 || v == 102,
{
}

/// The numbers of the special actions.
pub proof fn special_action_numbers()
    ensures
        special_action::UNKNOWN == 0x4000_0000,
        special_action::DOUBLECLICK == 0x4000_0001,
        special_action::WHEEL_LEFT == 0x4000_0002,
        special_action::WHEEL_RIGHT == 0x4000_0003,
        special_action::WHEEL_UP == 0x4000_0004,
        special_action::WHEEL_DOWN == 0x4000_0005,
        special_action::RATCHET_MODE_SWITCH == 0x4000_0006,
        special_action::RESOLUTION_CYCLE_UP == 0x4000_0007,
        special_action::RESOLUTION_CYCLE_DOWN == 0x4000_0008,
        special_action::RESOLUTION_UP == 0x4000_0009,
        special_action::RESOLUTION_DOWN == 0x4000_000A,
        special_action::RESOLUTION_ALTERNATE == 0x4000_000B,
        special_action::RESOLUTION_DEFAULT == 0x4000_000C,
        special_action::PROFILE_CYCLE_UP == 0x4000_000D,
        special_action::PROFILE_CYCLE_DOWN == 0x4000_000E,
        special_action::PROFILE_UP == 0x4000_000F,
        special_action::PROFILE_DOWN == 0x4000_0010,
        special_action::SECOND_MODE == 0x4000_0011,
        special_action::BATTERY_LEVEL == 0x4000_0012,
{
}

/// The parts of a color keep their values up to 255, and larger ones become 255.
pub proof fn compact_color(c: Color)
    ensures
        c.red <= 255 ==> c.rgb().r == c.red,
        c.green <= 255 ==> c.rgb().g == c.green,
        c.blue <= 255 ==> c.rgb().b == c.blue,
        c.red > 255 ==> c.rgb().r == 255,
        c.green > 255 ==> c.rgb().g == 255,
        c.blue > 255 ==> c.rgb().b == 255,
{
}

/// A range of values begins with its lowest, goes on in equal steps and ends where
/// one step more would lead beyond the highest.
pub proof fn stepped_range_is_complete(min: u32, max: u32, step: u32, i: int)
    requires
        step > 0,
    ensures
        ({
            let r = device::stepped_range(min, max, step);
            &&& r.len() == 0 <==> min > max
            &&& r.len() > 0 ==> r[0] == min && r.last() <= max < r.last() + step
            &&& 0 <= i < r.len() - 1 ==> r[i + 1] == r[i] + step
            &&& 0 <= i < r.len() ==> min <= r[i] <= max
        }),
{
    if min <= max {
        let n = (max - min) / step as int;
        assert(0 <= n && n * step <= max - min < n * step + step) by (nonlinear_arith)
            requires
                n == (max - min) / step as int,
                min <= max,
                step > 0,
        ;
        if 0 <= i <= n {
            assert(0 <= i * step <= n * step) by (nonlinear_arith)
                requires
                    0 <= i <= n,
                    step > 0,
            ;
            assert((i + 1) * step == i * step + step) by (nonlinear_arith);
        }
        if 0 <= i < n {
            assert((i + 1) * step <= n * step) by (nonlinear_arith)
                requires
                    0 <= i < n,
                    step > 0,
            ;
        }
    }
}

/// The DPI values of a device are those of its range, or 800 and 1600 where none
/// is known.
pub proof fn known_dpi_values(r: DpiRange)
    ensures
        device::configured_dpi_list(Some(r)) == device::stepped_range(r.min, r.max, r.step),
        device::configured_dpi_list(None) =~= seq![800u32, 1600],
{
}

/// The numbers of device types and the names of buses.
pub proof fn device_types(name: Seq<char>, bus: u16)
    ensures
        device::device_type_code(name) == 2 <==> name == "mouse"@,
        device::device_type_code(name) == 3 <==> name == "keyboard"@,
        device::device_type_code(name) == 1 <==> name == "other"@,
        bus == 3 ==> BusType::of(bus).text() == "usb"@,
        bus == 5 ==> BusType::of(bus).text() == "bluetooth"@,
        bus != 3 && bus != 5 ==> BusType::of(bus).text() == "unknown"@,
{
    reveal_strlit("mouse");
    reveal_strlit("keyboard");
    reveal_strlit("other");
    assert("mouse"@[0] == 'm' && "other"@[0] == 'o' && "keyboard"@.len() == 8);
}

/// A device is described by its bus, its vendor and its product, in four digits
/// each, and a zero.
pub proof fn model_text(vid: u16, pid: u16)
    ensures
        ({
            let t = device::model_string(3, vid, pid);
            &&& t.len() == 15
            &&& t[0] == 'u' && t[1] == 's' && t[2] == 'b' && t[3] == ':' && t[8] == ':' && t[13]
                == ':' && t[14] == '0'
            &&& t.subrange(4, 8) == text::hex4(vid as int)
            &&& t.subrange(9, 13) == text::hex4(pid as int)
        }),
{
    reveal_strlit("usb");
    reveal_strlit(":");
    reveal_strlit(":0");
    let t = device::model_string(3, vid, pid);
    assert(t.subrange(4, 8) =~= text::hex4(vid as int));
    assert(t.subrange(9, 13) =~= text::hex4(pid as int));
}

/// A profile before anything was read: the first of a device is active, and the
/// first resolution of a profile is active and the default one.
pub proof fn initial_profiles(index: int, c: DriverConfigModel, i: int)
    requires
        0 <= index <= u32::MAX,
        0 <= i <= u32::MAX,
    ensures
        ({
            let p = device::initial_profile(index, c);
            &&& p.index == index
            &&& p.is_active <==> index == 0
            &&& p.is_enabled && !p.is_dirty
            &&& p.report_rate == 1000 && p.report_rates =~= seq![125u32, 250, 500, 1000]
            &&& p.angle_snapping == -1 && p.debounce == -1
            &&& c.dpis is None ==> p.resolutions.len() == 1
            &&& c.dpis matches Some(n) ==> p.resolutions.len() == n
            &&& c.buttons is None ==> p.buttons.len() == 0
            &&& c.buttons matches Some(n) ==> p.buttons.len() == n
            &&& c.leds is None ==> p.leds.len() == 0
            &&& c.leds matches Some(n) ==> p.leds.len() == n
            &&& i < p.resolutions.len() ==> {
                let r = p.resolutions[i];
                &&& r.index == i && r.dpi == Dpi::Unified(800) && !r.is_disabled
                &&& r.is_active <==> i == 0
                &&& r.is_default <==> i == 0
            }
            &&& i < p.buttons.len() ==> {
                let b = p.buttons[i];
                &&& b.index == i && b.action_type is Button && b.mapping_value == i
                &&& b.macro_entries.len() == 0 && b.action_types =~= seq![0u32, 1, 2, 3, 4]
            }
            &&& i < p.leds.len() ==> {
                let l = p.leds[i];
                &&& l.index == i && l.mode is Off && l.brightness == 255 && l.effect_duration == 0
                &&& l.color.red == 0 && l.color.green == 0 && l.color.blue == 0
            }
        }),
{
}

/// The parts of a test device are those that it is described by.
pub proof fn test_device_parts(i: int, r: TestResolutionSpec, b: TestButtonSpec, l: TestLedSpec)
    requires
        0 <= i <= u32::MAX,
    ensures
        ({
            let m = test_device::resolution_model(i, r);
            &&& m.index == i
            &&& r.xres == r.yres ==> m.dpi == Dpi::Unified(r.xres)
            &&& r.xres != r.yres ==> m.dpi == (Dpi::Separate { x: r.xres, y: r.yres })
            &&& m.is_active == r.is_active && m.is_default == r.is_default && m.is_disabled
                == r.is_disabled
            &&& r.dpi_min is None || r.dpi_max is None ==> m.dpi_list =~= seq![r.xres]
        }),
        ({
            let m = test_device::button_model(i, b);
            &&& m.index == i && m.mapping_value == b.button
            &&& b.action_type@ == "none"@ ==> m.action_type is NoAction
            &&& b.action_type@ == "button"@ ==> m.action_type is Button
            &&& b.action_type@ == "special"@ ==> m.action_type is Special
            &&& b.action_type@ == "key"@ ==> m.action_type is Key
            &&& b.action_type@ == "macro"@ ==> m.action_type is Macro
        }),
        ({
            let m = test_device::led_model(i, l);
            &&& m.index == i && m.effect_duration == l.duration && m.brightness == l.brightness
            &&& l.mode <= 6 ==> m.mode.code() == l.mode
            &&& l.mode > 6 ==> m.mode is Off
            &&& l.color is None ==> m.color.red == 0 && m.color.green == 0 && m.color.blue == 0
            &&& l.color matches Some(v) ==> v@.len() >= 3 ==> m.color.red == v@[0] && m.color.green
                == v@[1] && m.color.blue == v@[2]
        }),
{
    reveal_strlit("none");
    reveal_strlit("button");
    reveal_strlit("special");
    reveal_strlit("key");
    reveal_strlit("macro");
    assert("none"@.len() == 4 && "button"@.len() == 6 && "special"@.len() == 7 && "key"@.len() == 3
        && "macro"@.len() == 5);
}

/// A test device without profiles has one, with one resolution and one button.
pub proof fn empty_test_device(name: Seq<char>, spec: TestDeviceSpec)
    requires
        spec.profiles@.len() == 0,
    ensures
        ({
            let d = test_device::device_model(name, spec);
            &&& d.sysname == name && d.device_type == 2 && d.firmware_version.len() == 0
            &&& d.name == "Test Device ("@ + name + ")"@
            &&& d.model == "test:0000:0000:0"@
            &&& d.profiles.len() == 1
            &&& d.profiles[0].is_active && d.profiles[0].is_enabled && d.profiles[0].report_rate
                == 1000
            &&& d.profiles[0].resolutions.len() == 1 && d.profiles[0].resolutions[0].dpi
                == Dpi::Unified(1000)
            &&& d.profiles[0].buttons.len() == 1 && d.profiles[0].leds.len() == 0
        }),
{
}

/// What may be for a driver is what is no noise.
pub proof fn notifications_are_no_noise(report: Seq<u8>)
    ensures
        actor::is_notification(report) <==> report.len() > 0 && !transport::noise(report),
        actor::is_notification(report) <==> report.len() > 0 && (report[0] == 0x10 || report[0]
            == 0x11),
{
}

/// A profile of which nothing is known: no name, no rate, nothing in it.
pub proof fn empty_profile()
    ensures
        ({
            let p = ProfileModel::empty();
            &&& p.index == 0 && p.name.len() == 0 && !p.is_active && !p.is_enabled && !p.is_dirty
            &&& p.report_rate == 0 && p.report_rates.len() == 0
            &&& p.angle_snapping == 0 && p.debounce == 0 && p.debounces.len() == 0
            &&& p.resolutions.len() == 0 && p.buttons.len() == 0 && p.leds.len() == 0
        }),
{
}

/// A resolution or a button of a test device that says nothing of itself is that of
/// a device without any.
pub proof fn default_test_parts(r: TestResolutionSpec, b: TestButtonSpec)
    ensures
        test_device::is_default_resolution(r) ==> {
            let m = test_device::resolution_model(0, r);
            &&& m.dpi == Dpi::Unified(1000) && m.is_active && m.is_default && !m.is_disabled
            &&& m.dpi_list[0] == 1000 && m.dpi_list.len() == 1
            &&& m.index == test_device::fallback_resolution().index
            &&& m.dpi == test_device::fallback_resolution().dpi
        },
        test_device::is_default_button(b) ==> {
            let m = test_device::button_model(0, b);
            &&& m.action_type is Button && m.mapping_value == 0
            &&& m.index == test_device::fallback_button().index
            &&& m.action_types =~= seq![0u32, 1, 2, 3, 4]
        },
        test_device::fallback_button().mapping_value == 0,
        test_device::fallback_button().action_type is Button,
        test_device::fallback_button().action_types =~= seq![0u32, 1, 2, 3, 4],
{
    reveal_strlit("none");
    reveal_strlit("button");
    assert("none"@.len() == 4 && "button"@.len() == 6);
}

} // verus!
