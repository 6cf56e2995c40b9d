//! LEDs: an effect and a color in version 1, a cycle of colors in versions 2
//! and 3.

use crate::bytes;
use crate::engine::device::{Color, LedInfo, LedMode, LedModel};
use crate::hal::steelseries::report::{
    DeviceQuirks, Report, ReportModel, STEELSERIES_REPORT_SIZE, STEELSERIES_REPORT_SIZE_SHORT,
    SteelseriesError,
};
use vstd::prelude::*;

verus! {

pub const STEELSERIES_ID_LED_INTENSITY_SHORT: u8 = 0x05;

pub const STEELSERIES_ID_LED_EFFECT_SHORT: u8 = 0x07;

pub const STEELSERIES_ID_LED_COLOR_SHORT: u8 = 0x08;

pub const STEELSERIES_ID_LED_COLOR_SHORT_RIVAL100: u8 = 0x05;

pub const STEELSERIES_ID_LED: u8 = 0x5b;

pub const STEELSERIES_ID_LED_PROTOCOL3: u8 = 0x05;

/// A color of a cycle, and how far it lies behind the one before it.
#[derive(Debug, Clone, Copy, PartialEq, Eq, Structural)]
pub struct CyclePoint {
    pub r: u8,
    pub g: u8,
    pub b: u8,
    pub pos: u8,
}

impl CyclePoint {
    pub open spec fn colored(color: Color, pos: u8) -> CyclePoint {
        CyclePoint { r: color.red as u8, g: color.green as u8, b: color.blue as u8, pos }
    }

    pub open spec fn black(pos: u8) -> CyclePoint {
        CyclePoint { r: 0, g: 0, b: 0, pos }
    }

    pub fn new(r: u8, g: u8, b: u8, pos: u8) -> (p: Self)
        ensures
            p == (CyclePoint { r, g, b, pos }),
    {
        CyclePoint { r, g, b, pos }
    }

    /// A point with the color of an LED.
    pub fn solid(color: &Color, pos: u8) -> (p: Self)
        ensures
            p == CyclePoint::colored(*color, pos),
    {
        CyclePoint::new(color.red as u8, color.green as u8, color.blue as u8, pos)
    }
}

/// Whether the cycle of a mode starts over at its end.
pub open spec fn repeats(mode: LedMode) -> bool {
    mode is Cycle || mode is Breathing
}

/// The cycle of an LED.
pub open spec fn cycle_points(led: LedModel) -> Seq<CyclePoint> {
    match led.mode {
        LedMode::Solid => seq![CyclePoint::colored(led.color, 0)],
        LedMode::Cycle => seq![
            CyclePoint { r: 0xFF, g: 0, b: 0, pos: 0 },
            CyclePoint { r: 0, g: 0xFF, b: 0, pos: 0x55 },
            CyclePoint { r: 0, g: 0, b: 0xFF, pos: 0x55 },
            CyclePoint { r: 0xFF, g: 0, b: 0, pos: 0x55 },
        ],
        LedMode::Breathing => seq![
            CyclePoint::black(0),
            CyclePoint::colored(led.color, 0x7F),
            CyclePoint::black(0x7F),
        ],
        _ => seq![CyclePoint::black(0)],
    }
}

/// How long the cycle of an LED takes, in milliseconds.
pub open spec fn cycle_duration(led: LedModel) -> u16 {
    if repeats(led.mode) {
        led.effect_duration as u16
    } else {
        5000
    }
}

/// Whether the cycle of an LED repeats, its points, and how long it takes.
pub fn build_cycle_points(led: &LedInfo) -> (r: (bool, Vec<CyclePoint>, u16))
    ensures
        r.0 == repeats(led@.mode),
        r.1@ == cycle_points(led@),
        r.2 == cycle_duration(led@),
{
    let r = match led.mode {
        LedMode::Off => (false, vec![CyclePoint::new(0, 0, 0, 0x00)], 5000),
        LedMode::Solid => (false, vec![CyclePoint::solid(&led.color, 0x00)], 5000),
        LedMode::Cycle => {
            let points = vec![
                CyclePoint::new(0xFF, 0x00, 0x00, 0x00),
                CyclePoint::new(0x00, 0xFF, 0x00, 0x55),
                CyclePoint::new(0x00, 0x00, 0xFF, 0x55),
                CyclePoint::new(0xFF, 0x00, 0x00, 0x55),
            ];
            (true, points, led.effect_duration as u16)
        },
        LedMode::Breathing => {
            let points = vec![
                CyclePoint::new(0, 0, 0, 0x00),
                CyclePoint::solid(&led.color, 0x7F),
                CyclePoint::new(0, 0, 0, 0x7F),
            ];
            (true, points, led.effect_duration as u16)
        },
        _ => (false, vec![CyclePoint::new(0, 0, 0, 0x00)], 5000),
    };
    assert(r.1@ =~= cycle_points(led@));
    r
}

/// The bytes of a point.
pub open spec fn point_bytes(p: CyclePoint) -> Seq<u8> {
    seq![p.r, p.g, p.b, p.pos]
}

/// `buf` with the first `n` points from `start` on: the color of the first
/// point, then each point, those beyond the end left out.
pub open spec fn with_points(buf: Seq<u8>, start: int, points: Seq<CyclePoint>, n: nat) -> Seq<u8>
    decreases n,
{
    if n == 0 {
        if points.len() == 0 {
            buf
        } else {
            bytes::spliced(buf, start, seq![points[0].r, points[0].g, points[0].b])
        }
    } else {
        let earlier = with_points(buf, start, points, (n - 1) as nat);
        let at = start + 3 + (n - 1) * 4;
        if at + 3 < buf.len() {
            bytes::spliced(earlier, at, point_bytes(points[n - 1]))
        } else {
            earlier
        }
    }
}

/// Writes a cycle: the color of the first point, then each point, those beyond
/// the end left out. Gives the number of points.
pub fn write_cycle_points(buf: &mut Vec<u8>, header_start: usize, points: &Vec<CyclePoint>) -> (r:
    u8)
    requires
        points@.len() > 0 ==> header_start + 2 < old(buf)@.len(),
        header_start + 7 + points@.len() * 4 <= usize::MAX,
    ensures
        r == points@.len() as u8,
        final(buf)@ == with_points(old(buf)@, header_start as int, points@, points@.len()),
{
    let ghost start = header_start as int;
    if points.len() > 0 {
        let head: [u8; 3] = [points[0].r, points[0].g, points[0].b];
        bytes::put(buf, header_start, head.as_slice());
        assert(head@ =~= seq![points@[0].r, points@[0].g, points@[0].b]);
    }
    let mut i: usize = 0;
    while i < points.len()
        invariant
            i <= points@.len(),
            start == header_start,
            header_start + 7 + points@.len() * 4 <= usize::MAX,
            buf@.len() == old(buf)@.len(),
            buf@ == with_points(old(buf)@, start, points@, i as nat),
        decreases points@.len() - i,
    {
        let p = points[i];
        let base: usize = header_start + 3 + i * 4;
        if base + 3 < buf.len() {
            let b: [u8; 4] = [p.r, p.g, p.b, p.pos];
            bytes::put(buf, base, b.as_slice());
            assert(b@ =~= point_bytes(p));
        }
        i += 1;
    }
    points.len() as u8
}

/// The time of a cycle as it is written: at least 330 ms for each point.
pub open spec fn written_duration(led: LedModel) -> u16 {
    let least = cycle_points(led).len() * 330;
    if least > cycle_duration(led) {
        least as u16
    } else {
        cycle_duration(led)
    }
}

fn least_duration(npoints: u8, duration: u16) -> (r: u16)
    requires
        npoints <= 4,
    ensures
        r == if npoints * 330 > duration {
            (npoints * 330) as u16
        } else {
            duration
        },
{
    let least: u16 = npoints as u16 * 330;
    if least > duration {
        least
    } else {
        duration
    }
}

/// The report for an LED in version 2.
pub open spec fn led_report_v2(led: LedModel) -> ReportModel {
    let named = ReportModel::output(STEELSERIES_ID_LED, 64).with(2, led.index as u8);
    let marked = if repeats(led.mode) {
        named
    } else {
        named.with(19, 0x01)
    };
    let points = cycle_points(led);
    ReportModel {
        bytes: with_points(marked.bytes, 29, points, points.len()),
        ..marked
    }.with(27, points.len() as u8).with_u16(3, written_duration(led))
}

/// The report for an LED in version 2.
pub fn write_led_v2(led: &LedInfo) -> (r: Report)
    ensures
        r@ == led_report_v2(led@),
{
    let mut report = Report::output(STEELSERIES_ID_LED, STEELSERIES_REPORT_SIZE);
    report.param(2, led.index as u8);
    let (repeat, points, duration) = build_cycle_points(led);
    if !repeat {
        report.param(19, 0x01);
    }
    let npoints: u8 = write_cycle_points(&mut report.buf, 29, &points);
    report.param(27, npoints);
    report.param_u16_le(3, least_duration(npoints, duration));
    report
}

/// The report for an LED in version 3.
pub open spec fn led_report_v3(led: LedModel) -> ReportModel {
    let named = ReportModel::feature(STEELSERIES_ID_LED_PROTOCOL3, 64).with(
        2,
        led.index as u8,
    ).with(7, led.index as u8);
    let marked = if repeats(led.mode) {
        named
    } else {
        named.with(24, 0x01)
    };
    let points = cycle_points(led);
    ReportModel {
        bytes: with_points(marked.bytes, 30, points, points.len()),
        ..marked
    }.with(29, points.len() as u8).with_u16(8, written_duration(led))
}

/// The report for an LED in version 3.
pub fn write_led_v3(led: &LedInfo) -> (r: Report)
    ensures
        r@ == led_report_v3(led@),
{
    let mut report = Report::feature(STEELSERIES_ID_LED_PROTOCOL3, STEELSERIES_REPORT_SIZE);
    report.param(2, led.index as u8);
    report.param(7, led.index as u8);
    let (repeat, points, duration) = build_cycle_points(led);
    if !repeat {
        report.param(24, 0x01);
    }
    let npoints: u8 = write_cycle_points(&mut report.buf, 30, &points);
    report.param(29, npoints);
    report.param_u16_le(8, least_duration(npoints, duration));
    report
}

/// The effect of a mode in version 1; `None` for a mode that it does not have.
pub open spec fn effect_v1(led: LedModel) -> Option<u8> {
    match led.mode {
        LedMode::Off | LedMode::Solid => Some(0x01),
        LedMode::Breathing => if led.effect_duration <= 3000 {
            Some(0x04)
        } else if led.effect_duration <= 5000 {
            Some(0x03)
        } else {
            Some(0x02)
        },
        _ => None,
    }
}

/// The intensity of an LED without colors.
pub open spec fn intensity_v1(led: LedModel) -> u8 {
    if led.mode is Off || led.brightness == 0 {
        1
    } else {
        (led.brightness as u8 / 86 + 2) as u8
    }
}

/// The number of an LED in version 1, which counts from one.
pub open spec fn led_number(led: LedModel) -> u8 {
    (led.index as u8 + 1) as u8
}

/// Whether the number of an LED can be written.
pub open spec fn led_number_fits(quirks: DeviceQuirks, led: LedModel) -> bool {
    (quirks.is_rival100 && !quirks.is_senseiraw) || led.index as u8 != 255
}

/// The report for the effect of an LED in version 1.
pub open spec fn effect_report(quirks: DeviceQuirks, led: LedModel) -> ReportModel {
    ReportModel::output(STEELSERIES_ID_LED_EFFECT_SHORT, 32).with(
        1,
        if quirks.is_rival100 {
            0
        } else {
            led_number(led)
        },
    ).with(2, effect_v1(led)->0)
}

/// The report for the color of an LED, or for its intensity, in version 1.
pub open spec fn color_report(quirks: DeviceQuirks, led: LedModel) -> ReportModel {
    if quirks.is_senseiraw {
        ReportModel::output(STEELSERIES_ID_LED_INTENSITY_SHORT, 32).with(1, led_number(led)).with(
            2,
            intensity_v1(led),
        )
    } else {
        let named = if quirks.is_rival100 {
            ReportModel::output(STEELSERIES_ID_LED_COLOR_SHORT_RIVAL100, 32).with(1, 0)
        } else {
            ReportModel::output(STEELSERIES_ID_LED_COLOR_SHORT, 32).with(1, led_number(led))
        };
        named.with(2, led.color.red as u8).with(3, led.color.green as u8).with(
            4,
            led.color.blue as u8,
        )
    }
}

/// The reports for an LED in version 1: the effect, then the color or the
/// intensity. It has the modes off, solid and breathing only.
pub fn write_led_v1(quirks: DeviceQuirks, led: &LedInfo) -> (r: Result<
    (Report, Report),
    SteelseriesError,
>)
    requires
        effect_v1(led@) is Some ==> led_number_fits(quirks, led@),
    ensures
        match r {
            Ok(reports) => effect_v1(led@) is Some && reports.0@ == effect_report(quirks, led@)
                && reports.1@ == color_report(quirks, led@),
            Err(e) => effect_v1(led@) is None && e == SteelseriesError::UnsupportedLedMode {
                mode: led.mode,
            },
        },
{
    let effect: u8 = match led.mode {
        LedMode::Off | LedMode::Solid => 0x01,
        LedMode::Breathing => {
            let ms: u32 = led.effect_duration;
            if ms <= 3000 {
                0x04
            } else if ms <= 5000 {
                0x03
            } else {
                0x02
            }
        },
        _ => {
            return Err(SteelseriesError::UnsupportedLedMode { mode: led.mode });
        },
    };
    let fixed = quirks.is_rival100 && !quirks.is_senseiraw;
    let number: u8 = if fixed {
        0
    } else {
        led.index as u8 + 1
    };
    let mut first = Report::output(STEELSERIES_ID_LED_EFFECT_SHORT, STEELSERIES_REPORT_SIZE_SHORT);
    first.param(
        1,
        if quirks.is_rival100 {
            0x00
        } else {
            number
        },
    );
    first.param(2, effect);
    if quirks.is_senseiraw {
        let intensity: u8 = if led.mode == LedMode::Off || led.brightness == 0 {
            1
        } else {
            led.brightness as u8 / 86 + 2
        };
        let mut r = Report::output(
            STEELSERIES_ID_LED_INTENSITY_SHORT,
            STEELSERIES_REPORT_SIZE_SHORT,
        );
        r.param(1, number);
        r.param(2, intensity);
        return Ok((first, r));
    }
    let opcode: u8 = if quirks.is_rival100 {
        STEELSERIES_ID_LED_COLOR_SHORT_RIVAL100
    } else {
        STEELSERIES_ID_LED_COLOR_SHORT
    };
    let mut r = Report::output(opcode, STEELSERIES_REPORT_SIZE_SHORT);
    r.param(1, number);
    r.param(2, led.color.red as u8);
    r.param(3, led.color.green as u8);
    r.param(4, led.color.blue as u8);
    Ok((first, r))
}

/// Every mode that version 1 offers can be written by it.
pub proof fn offered_modes_are_written(led: LedModel)
    requires
        led.mode is Off || led.mode is Solid || led.mode is Breathing,
    ensures
        effect_v1(led) is Some,
{
}

/// The number of points and the time of a cycle stand where the device looks
/// for them, whatever the colors.
pub proof fn cycle_header_is_kept(led: LedModel)
    ensures
        led_report_v2(led).bytes.len() == 64,
        led_report_v2(led).bytes[28] == cycle_points(led).len(),
        bytes::be16(led_report_v2(led).bytes[5], led_report_v2(led).bytes[4])
            == written_duration(led),
        led_report_v3(led).bytes.len() == 64,
        led_report_v3(led).bytes[29] == cycle_points(led).len(),
        bytes::be16(led_report_v3(led).bytes[9], led_report_v3(led).bytes[8])
            == written_duration(led),
        written_duration(led) >= 330 * cycle_points(led).len(),
{
    bytes::bytes_round_trip(written_duration(led), 0, 0);
    let named2 = ReportModel::output(STEELSERIES_ID_LED, 64).with(2, led.index as u8);
    lemma_points_size(named2.bytes, 29, cycle_points(led), cycle_points(led).len());
    lemma_points_size(
        named2.with(19, 0x01).bytes,
        29,
        cycle_points(led),
        cycle_points(led).len(),
    );
    let named3 = ReportModel::feature(STEELSERIES_ID_LED_PROTOCOL3, 64).with(
        2,
        led.index as u8,
    ).with(7, led.index as u8);
    lemma_points_size(named3.bytes, 30, cycle_points(led), cycle_points(led).len());
    lemma_points_size(
        named3.with(24, 0x01).bytes,
        30,
        cycle_points(led),
        cycle_points(led).len(),
    );
}

proof fn lemma_points_size(buf: Seq<u8>, start: int, points: Seq<CyclePoint>, n: nat)
    ensures
        with_points(buf, start, points, n).len() == buf.len(),
    decreases n,
{
    if n > 0 {
        lemma_points_size(buf, start, points, (n - 1) as nat);
    }
}

} // verus!
