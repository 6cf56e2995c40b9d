//! What the reports of a device hold, byte by byte.

use crate::engine::device::{ActionType, Dpi, LedModel, ProfileModel, ResolutionModel};
use crate::hal::logitech_g600::action;
use crate::hal::logitech_g600::driver;
use crate::hal::logitech_g600::driver::G600Data;
use crate::hal::logitech_g600::report::{ActiveProfileReport, ButtonEntry, ReportModel};
use vstd::prelude::*;

verus! {

/// What the code of a button stands for: a mouse button, a special action, or,
/// without a code, a key.
pub proof fn button_codes(entry: ButtonEntry)
    ensures
        ({
            let (action, value) = action::decoded(entry);
            let c = entry.code;
            &&& action is Button <==> 1 <= c <= 5
            &&& action is Button ==> value == c
            &&& action is Special <==> 0x11 <= c <= 0x15 || c == 0x17
            &&& c == 0x11 ==> value == 0x4000_0009
            &&& c == 0x12 ==> value == 0x4000_000A
            &&& c == 0x13 ==> value == 0x4000_0007
            &&& c == 0x14 ==> value == 0x4000_000D
            &&& c == 0x15 ==> value == 0x4000_000B
            &&& c == 0x17 ==> value == 0x4000_0011
            &&& action is Key <==> c == 0 && (entry.modifier > 0 || entry.key > 0)
            &&& action is Key ==> value == entry.key
            &&& !(action is Macro) && !(action is Unknown)
        }),
{
}

/// The code that is written for a button, special action or key.
pub proof fn written_codes(action: ActionType, value: u32)
    ensures
        ({
            let e = action::encoded(action, value);
            &&& e.modifier == 0
            &&& action is Button ==> e.key == 0 && e.code == if 1 <= value <= 5 {
                value
            } else {
                0
            }
            &&& action is Special && e.code != 0 ==> e.key == 0 && action::decoded(e) == (
                action,
                value,
            )
            &&& (action is Key || action is Macro) && value < 256 ==> e.code == 0 && e.key == value
            &&& action is NoAction ==> e.code == 0 && e.key == 0
        }),
{
}

/// The interval of the rate is counted in milliseconds from one on.
pub proof fn rate_bytes(raw: u8, hz: u32)
    ensures
        raw == 0 ==> action::hz_of_raw(raw) == 1000,
        raw == 1 ==> action::hz_of_raw(raw) == 500,
        raw == 2 ==> action::hz_of_raw(raw) == 333,
        raw == 3 ==> action::hz_of_raw(raw) == 250,
        raw == 4 ==> action::hz_of_raw(raw) == 200,
        raw == 5 ==> action::hz_of_raw(raw) == 166,
        raw == 6 ==> action::hz_of_raw(raw) == 142,
        raw == 7 ==> action::hz_of_raw(raw) == 125,
        hz == 1000 ==> action::raw_of_hz(hz) == 0,
        hz == 500 ==> action::raw_of_hz(hz) == 1,
        hz == 333 ==> action::raw_of_hz(hz) == 2,
        hz == 250 ==> action::raw_of_hz(hz) == 3,
        hz == 200 ==> action::raw_of_hz(hz) == 4,
        hz == 166 ==> action::raw_of_hz(hz) == 5,
        hz == 142 ==> action::raw_of_hz(hz) == 6,
        hz == 125 ==> action::raw_of_hz(hz) == 7,
        hz == 0 || hz > 1000 ==> action::raw_of_hz(hz) == 0,
{
    assert(1000int / 1 == 1000 && 1000int / 2 == 500 && 1000int / 3 == 333 && 1000int / 4 == 250
        && 1000int / 5 == 200 && 1000int / 6 == 166 && 1000int / 7 == 142 && 1000int / 8 == 125);
    assert(1000int / 1000 == 1 && 1000int / 500 == 2 && 1000int / 333 == 3 && 1000int / 250 == 4
        && 1000int / 200 == 5 && 1000int / 166 == 6 && 1000int / 142 == 7 && 1000int / 125 == 8);
    if hz > 1000 {
        assert(1000int / hz as int == 0) by (nonlinear_arith)
            requires
                hz > 1000,
        ;
    }
}

/// Resolutions go from 200 to 8200 in steps of 50; others are moved into that
/// range.
pub proof fn resolution_bytes(dpi: u32)
    ensures
        200 <= dpi <= 8200 ==> 50 * action::raw_of_dpi(dpi) <= dpi < 50 * action::raw_of_dpi(dpi)
            + 50,
        dpi < 200 ==> action::raw_of_dpi(dpi) == 4,
        dpi > 8200 ==> action::raw_of_dpi(dpi) == 164,
{
}

/// What a report of 154 bytes says of a profile: the rate in byte 11, the default
/// resolution in byte 13, four resolutions from byte 14 on, twenty buttons from
/// byte 31 on and as many for the shifted ones from byte 94 on.
pub proof fn profile_is_read(b: Seq<u8>, i: int, active: ActiveProfileReport, j: int, k: int)
    requires
        b.len() == 154,
        0 <= j < 4,
        0 <= k < 20,
        0 <= i < 3,
    ensures
        ({
            let p = driver::loaded_profile(ReportModel::of_bytes(b), i, active);
            let r = p.resolutions[j];
            let at = 31 + 3 * k;
            let shifted = 94 + 3 * k;
            &&& p.index == i
            &&& p.is_active <==> active.packed / 16 == i
            &&& p.report_rate == action::hz_of_raw(b[11])
            &&& p.resolutions.len() == 4
            &&& r.index == j
            &&& r.dpi == Dpi::Unified((50 * b[14 + j]) as u32)
            &&& r.is_disabled <==> b[14 + j] == 0
            &&& r.is_default <==> b[14 + j] != 0 && b[13] == j + 1
            &&& r.is_active <==> active.packed / 16 == i && active.packed / 2 % 4 == j
            &&& p.buttons.len() == 41
            &&& (p.buttons[k].action_type, p.buttons[k].mapping_value) == action::decoded(
                (ButtonEntry { code: b[at], modifier: b[at + 1], key: b[at + 2] }),
            )
            &&& (p.buttons[21 + k].action_type, p.buttons[21 + k].mapping_value)
                == action::decoded(
                (ButtonEntry { code: b[shifted], modifier: b[shifted + 1], key: b[shifted + 2] }),
            )
            &&& p.buttons[20].action_type is NoAction && p.buttons[20].mapping_value == 0
            &&& p.buttons[k].index == k && p.buttons[k].action_types =~= seq![0u32, 1, 2, 4]
        }),
{
}

/// What a report says of the LED: its color in bytes 1 to 3, its effect in byte 4
/// and its time in byte 5.
pub proof fn led_is_read(b: Seq<u8>)
    requires
        b.len() == 154,
    ensures
        ({
            let l = driver::loaded_led(ReportModel::of_bytes(b));
            let dark = b[1] == 0 && b[2] == 0 && b[3] == 0;
            &&& l.color.red == b[1] && l.color.green == b[2] && l.color.blue == b[3]
            &&& l.mode is Breathing <==> b[4] == 1
            &&& l.mode is Cycle <==> b[4] == 2
            &&& l.mode is Off <==> b[4] != 1 && b[4] != 2 && dark
            &&& l.mode is Solid <==> b[4] != 1 && b[4] != 2 && !dark
            &&& l.effect_duration == if b[4] == 1 || b[4] == 2 {
                1000 * b[5]
            } else {
                0
            }
        }),
{
}

/// What is written of an LED: its color, twice, its effect and its time in
/// seconds, fifteen at the most. One that is off is written black.
pub proof fn led_layout(m: ReportModel, l: LedModel)
    requires
        m.well_sized(),
        l.color.red <= 255 && l.color.green <= 255 && l.color.blue <= 255,
    ensures
        ({
            let b = driver::with_led(m, l).bytes();
            let lit = !(l.mode is Off);
            &&& b.len() == 154
            &&& b[1] == if lit {
                l.color.red as int
            } else {
                0
            }
            &&& b[2] == if lit {
                l.color.green as int
            } else {
                0
            }
            &&& b[3] == if lit {
                l.color.blue as int
            } else {
                0
            }
            &&& b[91] == b[1] && b[92] == b[2] && b[93] == b[3]
            &&& b[4] == if l.mode is Breathing {
                1int
            } else if l.mode is Cycle {
                2
            } else {
                0
            }
            &&& l.mode is Breathing || l.mode is Cycle ==> b[5] == if l.effect_duration >= 16000 {
                15
            } else {
                l.effect_duration / 1000
            }
        }),
{
}

/// The resolution bytes of a report and the mark of the default one.
pub proof fn resolution_layout(m: ReportModel, r: ResolutionModel, v: u32)
    requires
        m.well_sized(),
        r.index < 4,
        r.dpi == Dpi::Unified(v),
        200 <= v <= 8200,
        v % 50 == 0,
    ensures
        ({
            let b = driver::with_resolution(m, r).bytes();
            let at = 14 + r.index;
            &&& b[at] == if r.is_disabled {
                0
            } else {
                v / 50
            }
            &&& r.is_default ==> b[13] == r.index + 1
            &&& !r.is_default ==> b[13] == m.dpi_default
        }),
{
}

/// The report that chooses a resolution, and the numbers of the reports of
/// profiles.
pub proof fn report_numbers(slot: u8, i: int)
    requires
        slot < 4,
        0 <= i < 3,
    ensures
        driver::resolution_report(slot) =~= seq![0xF0u8, (0x40 + 2 * slot) as u8, 0, 0],
        driver::profile_report_id(i) == 0xF3 + i,
{
}

/// A profile that has changed is written in one report, and the active one has its
/// resolution chosen after that.
pub proof fn commit_layout(data: G600Data, p: ProfileModel, j: int)
    requires
        p.index < 3,
        p.resolutions.len() == 4,
        0 <= j < 4,
        forall|k: int|
            0 <= k < 4 ==> (#[trigger] p.resolutions[k]).index == k && p.resolutions[k].is_active
                == (k == j),
    ensures
        ({
            let r = driver::committed(data, p);
            &&& !p.is_dirty ==> r.len() == 0
            &&& p.is_dirty && !p.is_active ==> r.len() == 1
            &&& p.is_dirty && p.is_active ==> r.len() == 2 && r[1] =~= seq![
                0xF0u8,
                (0x40 + 2 * j) as u8,
                0,
                0,
            ]
            &&& p.is_dirty ==> r[0].len() == 154
        }),
{
    reveal_with_fuel(driver::active_slot, 5);
    assert(p.resolutions[0].index == 0 && p.resolutions[1].index == 1 && p.resolutions[2].index == 2
        && p.resolutions[3].index == 3);
}

/// Profiles are shown up to the first whose report is missing.
pub proof fn read_profiles(data: G600Data)
    ensures
        ({
            let r = driver::loaded_profiles(data);
            &&& data.profile_reports[0] is None ==> r.len() == 0
            &&& data.profile_reports[0] is Some && data.profile_reports[1] is None ==> r.len() == 1
            &&& data.profile_reports[0] is Some && data.profile_reports[1] is Some
                && data.profile_reports[2] is None ==> r.len() == 2
            &&& data.profile_reports[0] is Some && data.profile_reports[1] is Some
                && data.profile_reports[2] is Some ==> r.len() == 3 && r[2]
                == driver::loaded_profile(data.profile_reports[2]->0@, 2, data.active)
            &&& r.len() > 0 ==> r[0] == driver::loaded_profile(
                data.profile_reports[0]->0@,
                0,
                data.active,
            )
        }),
{
}

/// A report that was never read is all zeros but for its number and the default
/// resolution, which is the first.
pub proof fn blank_report_layout(id: u8, k: int)
    requires
        0 <= k < 154,
    ensures
        ReportModel::blank(id).well_sized(),
        ReportModel::blank(id).bytes()[k] == if k == 0 {
            id as int
        } else if k == 13 {
            1
        } else {
            0
        },
{
}

/// A profile beyond the third is not written, one without LEDs leaves the LED as it
/// is, and a resolution of zero is written as zero.
pub proof fn what_is_not_written(
    data: G600Data,
    m: ReportModel,
    p: ProfileModel,
    r: ResolutionModel,
    k: int,
)
    requires
        m.well_sized(),
        1 <= k <= 5,
    ensures
        p.index >= 3 ==> driver::committed(data, p).len() == 0,
        p.leds.len() == 0 && p.resolutions.len() == 0 && p.buttons.len() == 0
            ==> driver::updated_report(m, p).bytes()[k] == m.bytes()[k],
        r.index < 4 && r.dpi == Dpi::Unified(0) ==> driver::with_resolution(m, r).bytes()[14
            + r.index] == 0,
        r.index >= 4 ==> driver::with_resolution(m, r) == m,
{
}

} // verus!
