//! What the reports to a device hold, byte by byte.

use crate::engine::device;
use crate::engine::device::{
    ButtonModel, DeviceModel, Dpi, LedMode, LedModel, ProfileModel, ResolutionModel,
};
use crate::engine::device_database::DriverConfigModel;
use crate::hal::steelseries::button;
use crate::hal::steelseries::commit;
use crate::hal::steelseries::driver;
use crate::hal::steelseries::driver::{Loading, ReplyModel};
use crate::hal::steelseries::led;
use crate::hal::steelseries::led::CyclePoint;
use crate::hal::steelseries::report::{DeviceQuirks, ProtocolVersion, ReportModel};
use vstd::prelude::*;

verus! {

/// Whether a cycle stands in a report: the three bytes of the color of its first
/// point, then four bytes for each point.
pub open spec fn holds_points(bytes: Seq<u8>, start: int, points: Seq<(u8, u8, u8, u8)>) -> bool {
    &&& bytes[start] == points[0].0
    &&& bytes[start + 1] == points[0].1
    &&& bytes[start + 2] == points[0].2
    &&& forall|i: int|
        0 <= i < points.len() ==> {
            &&& bytes[start + 3 + 4 * i] == (#[trigger] points[i]).0
            &&& bytes[start + 4 + 4 * i] == points[i].1
            &&& bytes[start + 5 + 4 * i] == points[i].2
            &&& bytes[start + 6 + 4 * i] == points[i].3
        }
}

proof fn lemma_low_byte(v: u32)
    ensures
        v as u8 == v % 256,
{
    assert(v as u8 == v % 256) by (bit_vector);
}

proof fn lemma_points(buf: Seq<u8>, start: int, points: Seq<CyclePoint>, n: nat)
    requires
        0 <= start,
        0 < points.len() <= 4,
        n <= points.len(),
        start + 19 <= buf.len(),
    ensures
        ({
            let r = led::with_points(buf, start, points, n);
            &&& r.len() == buf.len()
            &&& r[start] == points[0].r && r[start + 1] == points[0].g && r[start + 2]
                == points[0].b
            &&& forall|i: int|
                0 <= i < n ==> {
                    &&& r[start + 3 + 4 * i] == (#[trigger] points[i]).r
                    &&& r[start + 4 + 4 * i] == points[i].g
                    &&& r[start + 5 + 4 * i] == points[i].b
                    &&& r[start + 6 + 4 * i] == points[i].pos
                }
            &&& forall|k: int| 0 <= k < start ==> #[trigger] r[k] == buf[k]
        }),
    decreases n,
{
    if n > 0 {
        lemma_points(buf, start, points, (n - 1) as nat);
    }
}

/// The points of an LED that is lit steadily: one, in its color.
pub open spec fn steady(l: LedModel) -> Seq<(u8, u8, u8, u8)> {
    seq![
        (
            (l.color.red % 256) as u8,
            (l.color.green % 256) as u8,
            (l.color.blue % 256) as u8,
            0u8,
        ),
    ]
}

/// The points of an LED that breathes: dark, its color half way, dark again.
pub open spec fn breath(l: LedModel) -> Seq<(u8, u8, u8, u8)> {
    seq![
        (0u8, 0u8, 0u8, 0u8),
        (
            (l.color.red % 256) as u8,
            (l.color.green % 256) as u8,
            (l.color.blue % 256) as u8,
            0x7Fu8,
        ),
        (0u8, 0u8, 0u8, 0x7Fu8),
    ]
}

/// The points of an LED that goes through the colors: red, green, blue and red
/// again, a third of the way apart.
pub open spec fn rainbow() -> Seq<(u8, u8, u8, u8)> {
    seq![
        (0xFFu8, 0u8, 0u8, 0u8),
        (0u8, 0xFFu8, 0u8, 0x55u8),
        (0u8, 0u8, 0xFFu8, 0x55u8),
        (0xFFu8, 0u8, 0u8, 0x55u8),
    ]
}

/// The points of an LED that is dark.
pub open spec fn darkness() -> Seq<(u8, u8, u8, u8)> {
    seq![(0u8, 0u8, 0u8, 0u8)]
}

/// The report for an LED in version 2: the number of the LED, the time of the
/// cycle, whether it is played once, the number of its points and the points. A
/// steady LED has one point in its color; one that breathes or goes through the
/// colors has the time of the effect, at least 330 ms for each point.
pub proof fn led_report_v2_layout(l: LedModel)
    requires
        l.index < 256,
    ensures
        ({
            let r = led::led_report_v2(l);
            let b = r.bytes;
            let time = b[4] + 256 * b[5];
            &&& !r.feature && b.len() == 64 && b[0] == 0 && b[1] == 0x5B && b[3] == l.index
            &&& l.mode is Solid ==> b[20] == 1 && b[28] == 1 && holds_points(b, 29, steady(l))
                && time == 5000
            &&& l.mode is Breathing ==> b[20] == 0 && b[28] == 3 && holds_points(b, 29, breath(l))
            &&& l.mode is Cycle ==> b[20] == 0 && b[28] == 4 && holds_points(b, 29, rainbow())
            &&& l.mode is Off ==> b[20] == 1 && b[28] == 1 && holds_points(b, 29, darkness())
                && time == 5000
            &&& l.mode is Breathing && 990 <= l.effect_duration <= 0xFFFF ==> time
                == l.effect_duration
            &&& l.mode is Breathing && l.effect_duration < 990 ==> time == 990
            &&& l.mode is Cycle && 1320 <= l.effect_duration <= 0xFFFF ==> time
                == l.effect_duration
            &&& l.mode is Cycle && l.effect_duration < 1320 ==> time == 1320
        }),
{
    lemma_low_byte(l.color.red);
    lemma_low_byte(l.color.green);
    lemma_low_byte(l.color.blue);
    let named = ReportModel::output(led::STEELSERIES_ID_LED, 64).with(2, l.index as u8);
    let marked = if led::repeats(l.mode) {
        named
    } else {
        named.with(19, 0x01)
    };
    let points = led::cycle_points(l);
    lemma_points(marked.bytes, 29, points, points.len());
    let p = led::with_points(marked.bytes, 29, points, points.len());
    let b = led::led_report_v2(l).bytes;
    assert(forall|k: int| 29 <= k < 64 ==> #[trigger] b[k] == p[k]);
    assert(b[0] == p[0] && b[1] == p[1] && b[3] == p[3] && b[20] == p[20]);
    if l.mode is Solid {
        assert(points[0].r == steady(l)[0].0);
    } else if l.mode is Breathing {
        assert(points[0].r == 0 && points[1].r == breath(l)[1].0 && points[2].r == 0);
    } else if l.mode is Cycle {
        assert(points[0].r == 0xFF && points[1].r == 0 && points[2].r == 0 && points[3].r == 0xFF);
    }
}

/// The report for an LED in version 3 holds the same as in version 2, in other
/// places, and names the LED twice.
pub proof fn led_report_v3_layout(l: LedModel)
    requires
        l.index < 256,
    ensures
        ({
            let r = led::led_report_v3(l);
            let b = r.bytes;
            let time = b[8] + 256 * b[9];
            &&& r.feature && b.len() == 64 && b[0] == 5 && b[2] == l.index && b[7] == l.index
            &&& l.mode is Solid ==> b[24] == 1 && b[29] == 1 && holds_points(b, 30, steady(l))
                && time == 5000
            &&& l.mode is Breathing ==> b[24] == 0 && b[29] == 3 && holds_points(b, 30, breath(l))
            &&& l.mode is Cycle ==> b[24] == 0 && b[29] == 4 && holds_points(b, 30, rainbow())
            &&& l.mode is Off ==> b[24] == 1 && b[29] == 1 && holds_points(b, 30, darkness())
                && time == 5000
            &&& l.mode is Breathing && 990 <= l.effect_duration <= 0xFFFF ==> time
                == l.effect_duration
            &&& l.mode is Breathing && l.effect_duration < 990 ==> time == 990
            &&& l.mode is Cycle && 1320 <= l.effect_duration <= 0xFFFF ==> time
                == l.effect_duration
            &&& l.mode is Cycle && l.effect_duration < 1320 ==> time == 1320
        }),
{
    lemma_low_byte(l.color.red);
    lemma_low_byte(l.color.green);
    lemma_low_byte(l.color.blue);
    let named = ReportModel::feature(led::STEELSERIES_ID_LED_PROTOCOL3, 64).with(
        2,
        l.index as u8,
    ).with(7, l.index as u8);
    let marked = if led::repeats(l.mode) {
        named
    } else {
        named.with(24, 0x01)
    };
    let points = led::cycle_points(l);
    lemma_points(marked.bytes, 30, points, points.len());
    let p = led::with_points(marked.bytes, 30, points, points.len());
    let b = led::led_report_v3(l).bytes;
    assert(forall|k: int| 30 <= k < 64 ==> #[trigger] b[k] == p[k]);
    assert(b[0] == p[0] && b[2] == p[2] && b[7] == p[7] && b[24] == p[24]);
    if l.mode is Solid {
        assert(points[0].r == steady(l)[0].0);
    } else if l.mode is Breathing {
        assert(points[0].r == 0 && points[1].r == breath(l)[1].0 && points[2].r == 0);
    } else if l.mode is Cycle {
        assert(points[0].r == 0xFF && points[1].r == 0 && points[2].r == 0 && points[3].r == 0xFF);
    }
}

/// The color of a steady LED can be told from its report: two of them with
/// different colors have different reports, and so have two that breathe.
pub proof fn colors_are_told_apart(a: LedModel, b: LedModel)
    requires
        a.index < 256,
        b.index < 256,
        a.mode == b.mode,
        a.mode is Solid || a.mode is Breathing,
        a.color != b.color,
        a.color.red <= 255 && a.color.green <= 255 && a.color.blue <= 255,
        b.color.red <= 255 && b.color.green <= 255 && b.color.blue <= 255,
    ensures
        led::led_report_v2(a).bytes != led::led_report_v2(b).bytes,
        led::led_report_v3(a).bytes != led::led_report_v3(b).bytes,
{
    led_report_v2_layout(a);
    led_report_v2_layout(b);
    led_report_v3_layout(a);
    led_report_v3_layout(b);
    let (p, q) = if a.mode is Solid {
        (steady(a)[0], steady(b)[0])
    } else {
        (breath(a)[1], breath(b)[1])
    };
    assert(p.0 != q.0 || p.1 != q.1 || p.2 != q.2);
}

/// The reports for an LED in version 1: its effect, and its color.
pub proof fn led_reports_v1_layout(quirks: DeviceQuirks, l: LedModel)
    requires
        l.index < 255,
        l.mode is Off || l.mode is Solid || l.mode is Breathing,
        l.color.red <= 255 && l.color.green <= 255 && l.color.blue <= 255,
    ensures
        ({
            let r = led::effect_report(quirks, l);
            let e = r.bytes;
            &&& !r.feature && e.len() == 32 && e[0] == 0 && e[1] == 7
            &&& e[2] == if quirks.is_rival100 {
                0
            } else {
                l.index + 1
            }
            &&& !(l.mode is Breathing) ==> e[3] == 1
            &&& l.mode is Breathing ==> e[3] == if l.effect_duration <= 3000 {
                4int
            } else if l.effect_duration <= 5000 {
                3
            } else {
                2
            }
        }),
        ({
            let r = led::color_report(quirks, l);
            let c = r.bytes;
            &&& !r.feature && c.len() == 32 && c[0] == 0
            &&& !quirks.is_senseiraw ==> {
                &&& c[1] == if quirks.is_rival100 {
                    5int
                } else {
                    8
                }
                &&& c[2] == if quirks.is_rival100 {
                    0
                } else {
                    l.index + 1
                }
                &&& c[3] == l.color.red && c[4] == l.color.green && c[5] == l.color.blue
            }
            &&& quirks.is_senseiraw ==> {
                &&& c[1] == 5
                &&& c[2] == l.index + 1
                &&& l.mode is Off || l.brightness == 0 ==> c[3] == 1
                &&& !(l.mode is Off) && 1 <= l.brightness <= 85 ==> c[3] == 2
                &&& !(l.mode is Off) && 86 <= l.brightness <= 171 ==> c[3] == 3
                &&& !(l.mode is Off) && 172 <= l.brightness <= 255 ==> c[3] == 4
            }
        }),
{
}

/// The reports that set a resolution of up to 25600 in steps of `step`: the number
/// of the resolution, from one on, and how many steps it lies above the first.
pub proof fn dpi_report_layout(version: ProtocolVersion, r: ResolutionModel, step: u32, k: int)
    requires
        r.index < 255,
        0 < step,
        0 <= k < 256,
        commit::dpi_value(r.dpi) == (k + 1) * step,
    ensures
        ({
            let m = commit::dpi_report(version, r, step);
            let b = m.bytes;
            &&& !m.feature && b[0] == 0
            &&& version is V1 ==> b.len() == 32 && b[1] == 3 && b[2] == r.index + 1
                && (r.dpi_list.len() == 0 ==> b[3] == k)
            &&& version is V2 ==> b.len() == 64 && b[1] == 0x53 && b[3] == r.index + 1 && b[4] == k
                && b[7] == 0x42
            &&& version is V3 ==> b.len() == 64 && b[1] == 3 && b[3] == r.index + 1 && b[4] == k
                && b[6] == 0x42
            &&& version is V4 ==> b.len() == 64 && b[1] == 0x15 && b[2] == r.index + 1 && b[3] == k
        }),
{
    let dpi = commit::dpi_value(r.dpi);
    assert(dpi / step == k + 1) by (nonlinear_arith)
        requires
            dpi == (k + 1) * step,
            0 < step,
            0 <= k,
    ;
}

/// In version 1 a resolution of a list is written as its place, counted from the
/// end.
pub proof fn listed_dpi_is_written(r: ResolutionModel, step: u32, k: int)
    requires
        r.index < 255,
        0 <= k < r.dpi_list.len() < 256,
        r.dpi_list[k] == commit::dpi_value(r.dpi),
        forall|j: int| 0 <= j < k ==> r.dpi_list[j] != commit::dpi_value(r.dpi),
    ensures
        commit::dpi_report(ProtocolVersion::V1, r, step).bytes[3] == r.dpi_list.len() - k,
{
    device::lemma_position_found(r.dpi_list, commit::dpi_value(r.dpi), k);
}

/// The DPI value that is written: the one for both axes, or the first of two.
pub proof fn written_dpi(x: u32, y: u32)
    ensures
        commit::dpi_value(Dpi::Unified(x)) == x,
        commit::dpi_value((Dpi::Separate { x, y })) == x,
{
}

/// The reports that set the rate: a code from 1 to 4, or the interval in
/// milliseconds.
pub proof fn rate_report_layout(version: ProtocolVersion, hz: u32)
    requires
        hz == 125 || hz == 250 || hz == 500 || hz == 1000,
    ensures
        ({
            let m = commit::rate_report(version, hz);
            let b = m.bytes;
            &&& !m.feature && b[0] == 0
            &&& b.len() == if version is V1 || version is V4 {
                32int
            } else {
                64
            }
            &&& b[1] == match version {
                ProtocolVersion::V1 | ProtocolVersion::V3 => 4int,
                ProtocolVersion::V2 => 0x54,
                ProtocolVersion::V4 => 0x17,
            }
            &&& version is V2 || version is V3 ==> b[3] * hz == 1000
            &&& version is V1 || version is V4 ==> b[3] == if hz == 1000 {
                1int
            } else if hz == 500 {
                2
            } else if hz == 250 {
                3
            } else {
                4
            }
        }),
{
    assert(1000u32 / 125u32 == 8 && 1000u32 / 250u32 == 4 && 1000u32 / 500u32 == 2 && 1000u32
        / 1000u32 == 1);
}

/// Rates between those that devices have are written as the nearest of them in
/// versions 1 and 4.
pub proof fn other_rates(version: ProtocolVersion, hz: u32)
    requires
        version is V1 || version is V4,
    ensures
        ({
            let c = commit::rate_report(version, hz).bytes[3];
            &&& c == 1 <==> hz >= 1000
            &&& c == 2 <==> 375 <= hz < 1000
            &&& c == 3 <==> 125 < hz < 375
            &&& c == 4 <==> hz <= 125
        }),
{
}

/// The report that makes a device keep its settings, and how long it takes.
pub proof fn save_layout(version: ProtocolVersion)
    ensures
        ({
            let c = commit::save_command(version);
            &&& !c.feature && c.settle_ms == 20
            &&& c.bytes[0] == 0
            &&& c.bytes[1] == if version is V2 {
                0x59int
            } else {
                9
            }
            &&& c.bytes.len() == if version is V1 {
                32int
            } else {
                64
            }
            &&& forall|k: int| 2 <= k < c.bytes.len() ==> #[trigger] c.bytes[k] == 0
        }),
{
}

/// What a button does, in the first bytes of its record: its number for a mouse
/// button, a code for a special action, 0 for nothing.
pub proof fn button_record_layout(b: ButtonModel, senseiraw: bool)
    ensures
        ({
            let r = button::button_record(b, senseiraw);
            &&& b.action_type is Button && b.mapping_value < 256 ==> r == seq![
                b.mapping_value as u8,
            ]
            &&& b.action_type is Special ==> r.len() == 1 && r[0] == if b.mapping_value
                == 0x4000_0007 {
                0x30int
            } else if b.mapping_value == 0x4000_0004 {
                0x31
            } else if b.mapping_value == 0x4000_0005 {
                0x32
            } else {
                0
            }
            &&& b.action_type is NoAction || b.action_type is Unknown ==> r == seq![0u8]
            &&& b.action_type is Key && b.macro_entries.len() == 0 && 0 < b.mapping_value < 256
                ==> r.len() == 2 && r[0] == (if senseiraw {
                0x10int
            } else {
                0x51
            }) && r[1] == b.mapping_value
        }),
{
    if b.action_type is Key && b.macro_entries.len() == 0 {
        lemma_no_modifiers(b.macro_entries, 8);
    }
}

proof fn lemma_no_modifiers(entries: Seq<(u32, u32)>, n: nat)
    requires
        entries.len() == 0,
    ensures
        button::bound_modifiers(entries, n).len() == 0,
    decreases n,
{
    if n > 0 {
        lemma_no_modifiers(entries, (n - 1) as nat);
    }
}

/// The key of a macro is the last one that it presses, modifiers apart.
pub proof fn last_key_is_bound(b: ButtonModel, i: int, senseiraw: bool)
    requires
        b.action_type is Key || b.action_type is Macro,
        0 <= i < b.macro_entries.len(),
        b.macro_entries[i].0 == 0,
        0 < b.macro_entries[i].1 < 224,
        forall|j: int|
            i < j < b.macro_entries.len() ==> (#[trigger] b.macro_entries[j]).0 != 0 || 224
                <= b.macro_entries[j].1 <= 231,
    ensures
        ({
            let r = button::button_record(b, senseiraw);
            &&& r[0] == if senseiraw {
                0x10int
            } else {
                0x51
            }
            &&& r.last() == b.macro_entries[i].1
        }),
{
    lemma_last_key(b.macro_entries, b.macro_entries.len(), i);
}

proof fn lemma_last_key(entries: Seq<(u32, u32)>, n: nat, i: int)
    requires
        0 <= i < n <= entries.len(),
        entries[i].0 == 0,
        entries[i].1 < 224,
        forall|j: int|
            i < j < n ==> (#[trigger] entries[j]).0 != 0 || 224 <= entries[j].1 <= 231,
    ensures
        button::last_key(entries, n) == entries[i].1,
    decreases n,
{
    if i < n - 1 {
        lemma_last_key(entries, (n - 1) as nat, i);
    }
}

/// The table of buttons: its opcode, and where the record of each button starts.
pub proof fn button_table_layout(index: u32, senseiraw: bool)
    ensures
        button::button_table(Seq::empty(), senseiraw, 0)[1] == 0x31,
        button::button_table(Seq::empty(), senseiraw, 0).len() == if senseiraw {
            32int
        } else {
            262
        },
        button::record_start(index, senseiraw) == if senseiraw {
            3 + 3 * index
        } else {
            3 + 5 * index
        },
{
}

/// The settings that version 2 reports: the active resolution, from one on, the
/// resolutions in every other byte and the colors of the LEDs.
pub proof fn settings_are_read(p: ProfileModel, data: Seq<u8>, i: int, j: int)
    requires
        data.len() == 64,
        0 <= i < p.resolutions.len(),
        0 <= j < p.leds.len(),
        p.resolutions[i].index < 30,
        p.leds[j].index < 18,
    ensures
        ({
            let q = driver::with_settings(ProtocolVersion::V2, p, data);
            let r = q.resolutions[i];
            let at = p.leds[j].index * 3;
            &&& data[1] > 0 ==> (r.is_active <==> r.index + 1 == data[1])
            &&& r.index == p.resolutions[i].index
            &&& r.dpi == Dpi::Unified((100 * (data[2 + 2 * r.index] + 1)) as u32)
            &&& q.leds[j].color.red == data[6 + at]
            &&& q.leds[j].color.green == data[7 + at]
            &&& q.leds[j].color.blue == data[8 + at]
        }),
        ({
            let r = driver::with_settings(ProtocolVersion::V3, p, data).resolutions[i];
            &&& data[0] > 0 ==> (r.is_active <==> r.index + 1 == data[0])
            &&& r.dpi == p.resolutions[i].dpi
        }),
{
}

/// The requests for the settings and for the firmware version.
pub proof fn query_layout(version: ProtocolVersion)
    ensures
        driver::settings_query(version) is Some <==> version is V2 || version is V3,
        driver::settings_query(version) matches Some(m) ==> m.bytes.len() == 64 && m.bytes[1] == if version is V2 {
            0x92int
        } else {
            0x16
        },
        driver::firmware_query(version) is None <==> version is V4,
        driver::firmware_query(version) matches Some(m) ==> m.bytes.len() == if version is V1 {
            32int
        } else {
            64
        },
        driver::firmware_query(version) matches Some(m) ==> m.bytes[1] == if version is V2 {
            0x90int
        } else {
            0x10
        },
{
}

/// The versions are numbered from one to four.
pub proof fn version_numbers(n: u32)
    ensures
        n == 1 ==> ProtocolVersion::numbered(n) == Some(ProtocolVersion::V1),
        n == 2 ==> ProtocolVersion::numbered(n) == Some(ProtocolVersion::V2),
        n == 3 ==> ProtocolVersion::numbered(n) == Some(ProtocolVersion::V3),
        n == 4 ==> ProtocolVersion::numbered(n) == Some(ProtocolVersion::V4),
        n == 0 || n > 4 ==> ProtocolVersion::numbered(n) is None,
{
}

/// A profile before anything was read: 1000 Hz, two resolutions of 800 and 1600,
/// and as many buttons and LEDs as the database gives.
pub proof fn profile_before_reading(version: ProtocolVersion, c: DriverConfigModel, i: int)
    requires
        0 <= i <= u32::MAX,
    ensures
        ({
            let p = driver::default_profile(version, c);
            let plain = !DeviceQuirks::of(c).is_senseiraw;
            let switch: int = if c.buttons matches Some(n) && n == 7 {
                6
            } else if c.buttons matches Some(n) && n > 7 {
                7
            } else {
                5
            };
            &&& p.index == 0 && p.is_active && p.is_enabled && !p.is_dirty
            &&& p.report_rate == 1000 && p.report_rates =~= seq![125u32, 250, 500, 1000]
            &&& p.resolutions.len() == 2
            &&& i < 2 ==> p.resolutions[i].index == i && p.resolutions[i].dpi == Dpi::Unified(
                (800 * (i + 1)) as u32,
            ) && (p.resolutions[i].is_active <==> i == 0)
            &&& c.buttons is None ==> p.buttons.len() == 0
            &&& c.buttons matches Some(n) ==> p.buttons.len() == n
            &&& i < p.buttons.len() ==> {
                let b = p.buttons[i];
                &&& b.index == i
                &&& i == switch ==> b.action_type is Special && b.mapping_value == 0x4000_0007
                &&& i != switch && i < 8 ==> b.action_type is Button && b.mapping_value == i + 1
                &&& i != switch && i >= 8 ==> b.action_type is NoAction
            }
            &&& c.leds is None ==> p.leds.len() == 0
            &&& c.leds matches Some(n) ==> p.leds.len() == n
            &&& i < p.leds.len() ==> {
                let l = p.leds[i];
                &&& l.index == i && l.mode is Solid && l.brightness == 255
                &&& l.color.red == 0 && l.color.green == 0
                &&& l.color.blue == if plain {
                    255int
                } else {
                    0
                }
                &&& l.modes.contains(LedMode::Cycle) <==> !(version is V1)
            }
        }),
{
    let p = driver::default_profile(version, c);
    if i < p.leds.len() {
        let l = p.leds[i];
        if !(version is V1) {
            assert(l.modes[3] is Cycle);
        }
    }
}

/// The settings are read first, where a version has them, and then the firmware
/// version.
pub proof fn loading_steps(s: Loading, reply: ReplyModel)
    requires
        s.info.profiles.len() == 1,
    ensures
        ({
            let n = s.after(reply);
            &&& s.phase is Settings && !(s.version is V4) ==> n.phase is Firmware
            &&& s.phase is Settings && s.version is V4 ==> n.phase is Done
            &&& s.phase is Settings && !(reply is Data) ==> n.info.profiles == s.info.profiles
            &&& s.phase is Settings ==> (reply matches ReplyModel::Data(data)
                ==> n.info.profiles[0] == driver::with_settings(
                s.version,
                s.info.profiles[0],
                data,
            ))
            &&& s.phase is Firmware ==> n.phase is Done && n.info.profiles == s.info.profiles
            &&& s.phase is Done ==> n == s
        }),
{
}

/// What a commit sends: the active resolution, the buttons, the LEDs, the rate,
/// and the request to keep all that.
pub proof fn commit_order(
    version: ProtocolVersion,
    quirks: DeviceQuirks,
    info: DeviceModel,
    p: ProfileModel,
    i: int,
)
    requires
        0 <= i < p.resolutions.len(),
        p.resolutions[i].is_active,
        forall|j: int| 0 <= j < i ==> !(#[trigger] p.resolutions[j]).is_active,
        p.leds.len() == 0,
        info.driver_config.macro_length is None,
    ensures
        ({
            let plan = commit::profile_plan(version, quirks, info, p);
            let step = match info.driver_config.dpi_range {
                Some(r) => r.step,
                None => 100u32,
            };
            &&& plan.error is None
            &&& plan.sent.len() == 4
            &&& plan.sent[0].bytes == commit::dpi_report(version, p.resolutions[i], step).bytes
            &&& plan.sent[1].opcode == 0x31
            &&& plan.sent[2].bytes == commit::rate_report(version, p.report_rate).bytes
            &&& plan.sent[3] == commit::save_command(version)
            &&& plan.sent[0].settle_ms == 10 && plan.sent[1].settle_ms == 10
                && plan.sent[2].settle_ms == 10
        }),
{
    assert(commit::first_active(p.resolutions, i));
    let k = choose|k: int| commit::first_active(p.resolutions, k);
    assert(k == i);
}

/// The profile that is written is the first active one, or the first of all where
/// none is active.
pub proof fn which_profile_is_written(profiles: Seq<ProfileModel>, i: int)
    requires
        0 <= i < profiles.len(),
        forall|j: int| 0 <= j < i ==> !(#[trigger] profiles[j]).is_active,
        profiles[i].is_active || i == 0 && forall|j: int|
            0 <= j < profiles.len() ==> !(#[trigger] profiles[j]).is_active,
    ensures
        commit::written_profile(profiles) == profiles[i],
{
    assert(commit::is_written(profiles, i));
    let k = choose|k: int| commit::is_written(profiles, k);
    assert(commit::is_written(profiles, k));
    if k < i {
        assert(!profiles[k].is_active);
    }
    if i < k {
        assert(!profiles[i].is_active);
    }
    assert(k == i);
}

} // verus!
