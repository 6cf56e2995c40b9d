//! What the requests and records of a device mean, byte by byte, and how what is
//! written is read.

use crate::engine::device::{ActionType, Dpi, LedMode, LedModel, ProfileModel};
use crate::engine::special_action as sa;
use crate::hal::hidpp20::apply;
use crate::hal::hidpp20::binding;
use crate::hal::hidpp20::binding::Hidpp20ButtonBinding;
use crate::hal::hidpp20::commit;
use crate::hal::hidpp20::commit::{CommitActionModel, CommitPhase, Committing};
use crate::hal::hidpp20::driver;
use crate::hal::hidpp20::driver::{DriverModel, Notice};
use crate::hal::hidpp20::eeprom;
use crate::hal::hidpp20::eeprom::EepromModel;
use crate::hal::hidpp20::feature::RequestModel;
use crate::hal::hidpp20::led;
use crate::hal::hidpp20::sector;
use crate::hal::hidpp20::sector::SectorReadModel;
use crate::hal::hidpp20::sensor;
use vstd::prelude::*;

verus! {

/// A request is a report of 20 bytes, or of 7 for a short one: the number of the
/// report, the device, the feature, the function in the upper and the software
/// in the lower half of a byte, and the parameters, filled up with zeros.
pub proof fn request_layout(q: RequestModel, device: u8)
    requires
        q.function < 16,
    ensures
        ({
            let w = q.wire(device);
            &&& w.len() == if q.short {
                7int
            } else {
                20
            }
            &&& w[0] == if q.short {
                0x10u8
            } else {
                0x11
            }
            &&& w[1] == device
            &&& w[2] == q.feature
            &&& w[3] == q.function * 16 + 4
            &&& forall|i: int|
                4 <= i < w.len() ==> #[trigger] w[i] == if i - 4 < q.params.len() {
                    q.params[i - 4]
                } else {
                    0
                }
        }),
{
}

/// The sensor is asked for the DPI value of the first active resolution, the
/// most significant byte first, and a sensor that answers with the bytes that it
/// was sent is read as using that value.
pub proof fn dpi_request_is_read_back(d: DriverModel, p: ProfileModel, i: int, list: Seq<u32>)
    requires
        d.features.index_of(0x2201) is Some,
        0 <= i < p.resolutions.len(),
        p.resolutions[i].is_active,
        forall|j: int| 0 <= j < i ==> !(#[trigger] p.resolutions[j]).is_active,
        p.resolutions[i].dpi is Unified,
    ensures
        ({
            let v = p.resolutions[i].dpi->Unified_0;
            &&& d.dpi_write(p) matches Ok(Some(q)) && {
                &&& Some(q.feature) == d.features.index_of(0x2201)
                &&& q.function == 3
                &&& !q.short
                &&& q.params.len() == 3
                &&& q.params[0] == 0
                &&& q.params[1] * 256 + q.params[2] == if v <= 0xFFFF {
                    v as int
                } else {
                    0xFFFF
                }
                &&& v <= 0xFFFF ==> apply::with_sensor_state(
                    p,
                    list,
                    crate::bytes::be16(q.params[1], q.params[2]),
                ).resolutions[i].dpi == p.resolutions[i].dpi
            }
        }),
{
    assert(driver::is_first_active_resolution(p.resolutions, i));
    let k = choose|k: int| driver::is_first_active_resolution(p.resolutions, k);
    assert(k == i);
    assert(d.dpi_write(p) is Ok);
}

/// A profile without an active resolution of one value has no DPI value sent.
pub proof fn no_dpi_is_sent_without_one(d: DriverModel, p: ProfileModel)
    requires
        forall|j: int|
            0 <= j < p.resolutions.len() && (#[trigger] p.resolutions[j]).is_active ==> !(
            p.resolutions[j].dpi is Unified),
    ensures
        d.dpi_write(p) matches Ok(q) && q is None,
{
}

/// The report rate is sent as an interval in milliseconds, and a device that
/// answers with that interval is read as using the rate.
pub proof fn rate_request_is_read_back(d: DriverModel, p: ProfileModel)
    requires
        d.features.index_of(0x8060) is Some,
        4 <= p.report_rate <= 1000,
        1000int % p.report_rate as int == 0,
        p.report_rate != d.cached_report_rate_hz,
    ensures
        d.rate_write(p) matches Ok(Some(q)) && {
            &&& Some(q.feature) == d.features.index_of(0x8060)
            &&& q.function == 2
            &&& !q.short
            &&& q.params.len() == 1
            &&& q.params[0] * p.report_rate == 1000
            &&& apply::rate_of_interval(q.params[0]) == Some(p.report_rate)
        },
{
    commit::lemma_interval_keeps_rate(p.report_rate);
    let r = p.report_rate as int;
    let q = 1000int / r;
    assert(q * r == 1000) by (nonlinear_arith)
        requires
            4 <= r <= 1000,
            q == 1000int / r,
            1000int % r == 0,
    ;
    assert(1 <= q <= 250) by (nonlinear_arith)
        requires
            q * r == 1000,
            4 <= r <= 1000,
    ;
    assert(driver::interval_of_rate(p.report_rate) == q);
}

/// No report rate is sent if there is none or the device uses it already.
pub proof fn rate_in_use_is_not_sent(d: DriverModel, p: ProfileModel)
    requires
        p.report_rate == 0 || p.report_rate == d.cached_report_rate_hz,
    ensures
        d.rate_write(p) matches Ok(q) && q is None,
{
}

/// The first byte of an LED record for each mode.
pub open spec fn mode_byte(mode: LedMode) -> u8 {
    match mode {
        LedMode::Off => 0x00,
        LedMode::Solid => 0x01,
        LedMode::Cycle => 0x03,
        LedMode::ColorWave => 0x04,
        LedMode::Starlight => 0x05,
        LedMode::Breathing => 0x0A,
        LedMode::TriColor => 0x20,
    }
}

/// Whether the components of a color fit a byte.
pub open spec fn fits(c: crate::engine::device::Color) -> bool {
    c.red <= 255 && c.green <= 255 && c.blue <= 255
}

/// A live LED is sent its number, the record of its effect and a one, to the
/// feature that has the effect. The record names the effect and holds its
/// colors, its duration in milliseconds and its brightness in percent, each in
/// its place.
pub proof fn led_request_layout(d: DriverModel, l: LedModel)
    requires
        d.features.index_of(0x8070) is Some,
        d.features.index_of(0x8071) is Some,
        l.index <= 255,
        fits(l.color),
        fits(l.secondary_color),
        fits(l.tertiary_color),
        l.effect_duration <= 0xFFFF,
        l.brightness <= 255,
    ensures
        d.led_write(l) matches Ok(q) && {
            &&& Some(q.feature) == d.features.index_of(
                if l.mode is TriColor {
                    0x8071
                } else {
                    0x8070
                },
            )
            &&& q.function == if l.mode is TriColor {
                2u8
            } else {
                3
            }
            &&& !q.short
            &&& q.params.len() == 13
            &&& q.params[0] == l.index
            &&& q.params[1] == mode_byte(l.mode)
            &&& q.params[12] == 1
            &&& l.mode is Solid || l.mode is Starlight || l.mode is Breathing || l.mode is TriColor
                ==> q.params[2] == l.color.red && q.params[3] == l.color.green && q.params[4]
                == l.color.blue
            &&& l.mode is Starlight || l.mode is TriColor ==> q.params[5] == l.secondary_color.red
                && q.params[6] == l.secondary_color.green && q.params[7] == l.secondary_color.blue
            &&& l.mode is TriColor ==> q.params[8] == l.tertiary_color.red && q.params[9]
                == l.tertiary_color.green && q.params[10] == l.tertiary_color.blue
            &&& l.mode is Cycle || l.mode is ColorWave ==> q.params[7] * 256 + q.params[8]
                == l.effect_duration && q.params[9] * 255 <= l.brightness * 100 < (q.params[9] + 1)
                * 255
            &&& l.mode is Breathing ==> q.params[5] * 256 + q.params[6] == l.effect_duration
                && q.params[8] * 255 <= l.brightness * 100 < (q.params[8] + 1) * 255
        },
{
    assert(d.led_write(l) is Ok);
    let p = led::percent_of_brightness(l.brightness);
    assert(p == l.brightness * 100 / 255);
}

/// A record is read by the same layout: the effect from its first byte, colors,
/// duration and brightness from their places.
pub proof fn led_record_is_read(s: Seq<u8>, index: int)
    requires
        s.len() >= 11,
        0 <= index <= u32::MAX,
    ensures
        ({
            let l = led::led_of_bytes(s, index);
            &&& l.index == index
            &&& s[0] == 0x01 <==> l.mode is Solid
            &&& s[0] == 0x03 <==> l.mode is Cycle
            &&& s[0] == 0x04 <==> l.mode is ColorWave
            &&& s[0] == 0x05 <==> l.mode is Starlight
            &&& s[0] == 0x0A <==> l.mode is Breathing
            &&& l.mode is Solid || l.mode is Starlight || l.mode is Breathing ==> l.color.red
                == s[1] && l.color.green == s[2] && l.color.blue == s[3]
            &&& l.mode is Starlight ==> l.secondary_color.red == s[4] && l.secondary_color.green
                == s[5] && l.secondary_color.blue == s[6]
            &&& l.mode is Cycle || l.mode is ColorWave ==> l.effect_duration == s[6] * 256 + s[7]
                && l.brightness == s[8] * 255 / 100
            &&& l.mode is Breathing ==> l.effect_duration == s[4] * 256 + s[5] && l.brightness
                == s[7] * 255 / 100
        }),
{
}

/// Each special action of the hardware has its opcode, in both directions.
pub proof fn special_opcodes(special: u32, raw: u8)
    ensures
        binding::raw_of_special(special) == if special == 0x4000_0002 {
            1u8
        } else if special == 0x4000_0003 {
            2
        } else if special == 0x4000_0009 {
            3
        } else if special == 0x4000_000A {
            4
        } else if special == 0x4000_0007 {
            5
        } else if special == 0x4000_000C {
            6
        } else if special == 0x4000_000B {
            7
        } else if special == 0x4000_000F {
            8
        } else if special == 0x4000_0010 {
            9
        } else if special == 0x4000_000D {
            10
        } else if special == 0x4000_0011 {
            11
        } else {
            0
        },
        1 <= raw <= 11 ==> binding::raw_of_special(binding::special_of_raw(raw)) == raw,
        raw == 0 || raw > 11 ==> binding::special_of_raw(raw) == 0x4000_0000,
        sa::WHEEL_LEFT == 0x4000_0002,
        sa::WHEEL_RIGHT == 0x4000_0003,
        sa::RESOLUTION_UP == 0x4000_0009,
        sa::RESOLUTION_DOWN == 0x4000_000A,
        sa::RESOLUTION_CYCLE_UP == 0x4000_0007,
        sa::RESOLUTION_DEFAULT == 0x4000_000C,
        sa::RESOLUTION_ALTERNATE == 0x4000_000B,
        sa::PROFILE_UP == 0x4000_000F,
        sa::PROFILE_DOWN == 0x4000_0010,
        sa::PROFILE_CYCLE_UP == 0x4000_000D,
        sa::SECOND_MODE == 0x4000_0011,
{
}

/// A binding is four bytes: its kind, and what it names. A mouse button is a bit
/// in a mask, the most significant byte first; a key and a macro are numbers, the
/// least significant byte first; a special action is its opcode.
pub proof fn binding_layout(action: ActionType, v: u32)
    ensures
        ({
            let w = Hidpp20ButtonBinding::wire_of_action(action, v);
            &&& w.len() == 4
            &&& action is Button && 1 <= v <= 16 ==> w[0] == 0x80 && w[1] == 0x01 && w[2] * 256
                + w[3] == vstd::arithmetic::power2::pow2((v - 1) as nat)
            &&& action is Key && v <= 0xFFFF ==> w[0] == 0x80 && w[1] == 0x02 && w[3] * 256 + w[2]
                == v
            &&& action is Macro && v <= 0xFFFF ==> w[0] == 0x00 && w[1] == 0 && w[3] * 256 + w[2]
                == v
            &&& action is Special ==> w[0] == 0x90 && w[1] == 0 && w[2] == binding::raw_of_special(
                v,
            ) && w[3] == 0
            &&& action is NoAction || action is Unknown ==> w[0] == 0xFF
        }),
{
    vstd::arithmetic::power2::lemma2_to64();
    if 1 <= v <= 16 {
        assert(vstd::arithmetic::power2::pow2((v - 1) as nat) <= 32768) by {
            if v < 16 {
                vstd::arithmetic::power2::lemma_pow2_strictly_increases((v - 1) as nat, 15);
            }
        }
    }
}

/// The sector of a profile holds its settings in their places: the interval of
/// the report rate, the default resolution, five DPI values with the least
/// significant byte first, the bindings of the buttons and the records of the
/// LEDs; and at its end the check sum of all that comes before, the most
/// significant byte first.
pub proof fn profile_sector_layout(base: Seq<u8>, count: int, p: ProfileModel)
    requires
        0 <= count,
        base.len() >= 232,
        forall|b: int| 0 <= b < p.buttons.len() ==> (#[trigger] p.buttons[b]).index == b,
    ensures
        ({
            let s = commit::profile_sector(base, count, p);
            let n = s.len() as int;
            &&& n == base.len()
            &&& 4 <= p.report_rate <= 1000 && 1000int % p.report_rate as int == 0 ==> s[0]
                * p.report_rate == 1000
            &&& forall|i: int|
                0 <= i < p.resolutions.len() && i < 256 && (#[trigger] p.resolutions[i]).is_default
                    && (forall|j: int| 0 <= j < i ==> !(#[trigger] p.resolutions[j]).is_default)
                    ==> s[1] == i
            &&& forall|i: int|
                0 <= i < 5 && i < p.resolutions.len() && commit::in_use(
                    (#[trigger] p.resolutions[i]).dpi,
                ) ==> s[3 + 2 * i] + 256 * s[4 + 2 * i] == p.resolutions[i].dpi->Unified_0
            &&& forall|b: int|
                0 <= b < p.buttons.len() && b < count && b < 16 ==> s.subrange(
                    32 + 4 * b,
                    36 + 4 * b,
                ) == Hidpp20ButtonBinding::wire_of_action(
                    (#[trigger] p.buttons[b]).action_type,
                    p.buttons[b].mapping_value,
                )
            &&& s[n - 2] * 256 + s[n - 1] == crate::hal::hidpp::crc_ccitt(s.subrange(0, n - 2))
        }),
{
    let s = commit::profile_sector(base, count, p);
    let n = s.len() as int;
    let e = EepromModel::read(base, count);
    let m = commit::patched(e, p);
    commit::profile_sector_reads_back(base, count, p);
    commit::lemma_stored_buttons_hold(e.buttons, p.buttons);
    let back = EepromModel::read(s, count);
    assert(back == m);
    if 4 <= p.report_rate <= 1000 && 1000int % p.report_rate as int == 0 {
        let r = p.report_rate as int;
        let q = 1000int / r;
        assert(q * r == 1000) by (nonlinear_arith)
            requires
                4 <= r <= 1000,
                q == 1000int / r,
                1000int % r == 0,
        ;
        assert(1 <= q <= 250) by (nonlinear_arith)
            requires
                q * r == 1000,
                4 <= r <= 1000,
        ;
        assert(back.report_interval == q);
    }
    assert forall|i: int|
        0 <= i < p.resolutions.len() && i < 256 && (#[trigger] p.resolutions[i]).is_default && (
        forall|j: int| 0 <= j < i ==> !(#[trigger] p.resolutions[j]).is_default) implies s[1]
        == i by {
        assert(commit::is_first_default(p.resolutions, i));
        let k = choose|k: int| commit::is_first_default(p.resolutions, k);
        assert(k == i);
        assert(back.default_dpi_index == i);
    }
    assert forall|i: int|
        0 <= i < 5 && i < p.resolutions.len() && commit::in_use(
            (#[trigger] p.resolutions[i]).dpi,
        ) implies s[3 + 2 * i] + 256 * s[4 + 2 * i] == p.resolutions[i].dpi->Unified_0 by {
        assert(back.dpis[i] == m.dpis[i]);
        assert(back.dpis[i] == p.resolutions[i].dpi->Unified_0);
    }
    assert forall|b: int|
        0 <= b < p.buttons.len() && b < count && b < 16 implies s.subrange(32 + 4 * b, 36 + 4 * b)
        == Hidpp20ButtonBinding::wire_of_action(
        (#[trigger] p.buttons[b]).action_type,
        p.buttons[b].mapping_value,
    ) by {
        assert(back.buttons[b] == m.buttons[b]);
    }
    assert(eeprom::stored_crc(s) == eeprom::body_crc(s));
}

/// The directory lists the profiles in order: a sector of memory by its number,
/// which is the one after the index, and whether the profile is enabled.
pub proof fn directory_layout(profiles: Seq<ProfileModel>, size: int, k: int)
    requires
        size >= 6,
        0 <= k < profiles.len(),
        4 * k + 4 <= size - 2,
        profiles[k].index < 255,
    ensures
        ({
            let s = commit::directory_sector(profiles, size);
            &&& s.len() == size
            &&& s[4 * k] * 256 + s[4 * k + 1] == profiles[k].index + 1
            &&& s[4 * k + 2] != 0 <==> profiles[k].is_enabled
        }),
{
    let s = commit::directory_sector(profiles, size);
    assert((4 * k) / 4 == k && (4 * k + 1) / 4 == k && (4 * k + 2) / 4 == k);
    assert((4 * k) % 4 == 0 && (4 * k + 1) % 4 == 1 && (4 * k + 2) % 4 == 2);
}

/// What a commit asks for: host mode is 2 and onboard mode 1, a profile is
/// selected by the number after its index, a resolution by its index. A report in
/// which the device tells the same of its profile or resolution is taken for that
/// profile or resolution.
pub proof fn selection_is_noticed(s: Committing, report: Seq<u8>)
    requires
        s.consistent(),
        report.len() >= 20,
        report[0] == 0x11,
        report[1] == s.driver.device_index,
        s.driver.features.onboard_profiles == Some(report[2]),
    ensures
        s.commit.phase is HostMode ==> (s.action() matches CommitActionModel::Ask(q) && q.function
            == 1 && q.params == seq![2u8]),
        s.commit.phase is OnboardMode ==> (s.action() matches CommitActionModel::Ask(q)
            && q.function == 1 && q.params == seq![1u8]),
        s.commit.phase matches CommitPhase::SetProfile(i) ==> (s.action() matches CommitActionModel::Ask(
            q,
        ) && {
            let index = s.info.profiles[i as int].index;
            &&& q.function == 3
            &&& q.short
            &&& q.params.len() == 2
            &&& q.params[0] == 0
            &&& index < 255 ==> q.params[1] == index + 1
            &&& index < 255 && report[3] / 16 == 3 && report[5] == q.params[1] ==> s.driver.notice(
                report,
            ) == Notice::Profile(index)
        }),
        s.commit.phase matches CommitPhase::SetDpi(i, k) ==> (s.action() matches CommitActionModel::Ask(
            q,
        ) && {
            let index = s.info.profiles[i as int].resolutions[k as int].index;
            &&& q.function == 12
            &&& q.short
            &&& q.params.len() == 1
            &&& index <= 255 ==> q.params[0] == index
            &&& index <= 255 && report[3] / 16 == 12 && report[4] == q.params[0]
                ==> s.driver.notice(report) == Notice::Resolution(index)
        }),
{
}

/// Sectors are read and written where they stand: a profile in the sector after
/// its index, the directory in sector 0.
pub proof fn sectors_of_a_commit(s: Committing)
    requires
        s.consistent(),
    ensures
        s.commit.phase matches CommitPhase::Read(i) ==> (s.action() matches CommitActionModel::ReadSector {
            feature,
            sector,
            size,
        } && (s.info.profiles[i as int].index < 0xFFFF ==> sector == s.info.profiles[i as int].index
            + 1) && size == s.driver.onboard->0.sector_size),
        s.commit.phase matches CommitPhase::Write(i) ==> (s.action() matches CommitActionModel::WriteSector {
            feature,
            sector,
            data,
        } && (s.info.profiles[i as int].index < 0xFFFF ==> sector == s.info.profiles[i as int].index
            + 1) && data == s.commit.data),
        s.commit.phase is Directory ==> (s.action() matches CommitActionModel::WriteSector {
            feature,
            sector,
            data,
        } && sector == 0),
{
}

/// A sector is written by a request that names it, the place in it and the length
/// of what follows, then by the data in pieces of sixteen bytes, then by a closing
/// request.
pub proof fn sector_write_layout(feature: u8, sec: u16, offset: u16, data: Seq<u8>, i: int)
    requires
        data.len() <= 0xFFFF,
        0 <= i < data.len(),
    ensures
        ({
            let w = sector::sector_write(feature, sec, offset, data);
            let n = w.len() as int;
            &&& n == 2 + (data.len() + 15) / 16
            &&& w[0].function == 6 && !w[0].short && w[0].params.len() == 16
            &&& w[0].params[0] * 256 + w[0].params[1] == sec
            &&& w[0].params[2] * 256 + w[0].params[3] == offset
            &&& w[0].params[4] * 256 + w[0].params[5] == data.len()
            &&& w[1 + i / 16].function == 7 && !w[1 + i / 16].short
            &&& w[1 + i / 16].params[i % 16] == data[i]
            &&& w[n - 1].function == 8 && w[n - 1].short
            &&& w[0].feature == feature && w[1 + i / 16].feature == feature && w[n - 1].feature
                == feature
        }),
{
    let w = sector::sector_write(feature, sec, offset, data);
    let c = sector::chunk_count(data.len() as int);
    assert(i / 16 < c);
    assert(data.skip(16 * (i / 16))[i % 16] == data[i]);
}

/// A read names the sector and the place in it, the most significant byte first.
pub proof fn sector_read_layout(m: SectorReadModel)
    requires
        0 <= m.start,
        m.end <= 0xFFFF,
        !m.finished(),
    ensures
        m.request().function == 5,
        m.request().feature == m.feature,
        !m.request().short,
        m.request().params.len() == 16,
        m.request().params[4] == 0 && m.request().params[15] == 0,
        m.request().params[0] * 256 + m.request().params[1] == m.sector,
        m.request().params[2] * 256 + m.request().params[3] == m.position(),
        m.position() <= m.current(),
        m.end >= 16 ==> m.position() + 16 <= m.end,
{
}

/// A device that lists an interval of `k + 1` milliseconds has the rate that goes
/// with it, and no other.
pub proof fn rate_bitmap_is_read(bitmap: u8, k: u8)
    requires
        k < 8,
    ensures
        sensor::rates_of_bitmap(bitmap).contains((1000int / (k + 1)) as u32) <==> (bitmap >> k) & 1
            == 1,
        sensor::rates_of_bitmap(bitmap).len() <= 8,
{
    vstd::arithmetic::power2::lemma2_to64();
    let b = bitmap;
    assert((b >> 0u8) & 1 == b % 2 && (b >> 1u8) & 1 == b / 2 % 2 && (b >> 2u8) & 1 == b / 4 % 2
        && (b >> 3u8) & 1 == b / 8 % 2 && (b >> 4u8) & 1 == b / 16 % 2 && (b >> 5u8) & 1 == b / 32
        % 2 && (b >> 6u8) & 1 == b / 64 % 2 && (b >> 7u8) & 1 == b / 128 % 2) by (bit_vector);
    if k == 0 {
        assert(vstd::arithmetic::power2::pow2(0) == 1);
        assert(b as int / 1 == b);
        assert((b >> 0u8) == b) by (bit_vector);
        assert(sensor::has_bit(b, 0) <==> b % 2 == 1);
    } else if k == 1 {
        assert(sensor::has_bit(b, 1) <==> b / 2 % 2 == 1);
    } else if k == 2 {
        assert(sensor::has_bit(b, 2) <==> b / 4 % 2 == 1);
    } else if k == 3 {
        assert(sensor::has_bit(b, 3) <==> b / 8 % 2 == 1);
    } else if k == 4 {
        assert(sensor::has_bit(b, 4) <==> b / 16 % 2 == 1);
    } else if k == 5 {
        assert(sensor::has_bit(b, 5) <==> b / 32 % 2 == 1);
    } else if k == 6 {
        assert(sensor::has_bit(b, 6) <==> b / 64 % 2 == 1);
    } else {
        assert(sensor::has_bit(b, 7) <==> b / 128 % 2 == 1);
    }
    lemma_rates(b, 8, k as int);
}

proof fn lemma_rates(bitmap: u8, n: nat, k: int)
    requires
        n <= 8,
        0 <= k < 8,
    ensures
        sensor::rates_below(bitmap, n).contains((1000int / (k + 1)) as u32) <==> k < n
            && sensor::has_bit(bitmap, k),
        sensor::rates_below(bitmap, n).len() <= n,
    decreases n,
{
    if n > 0 {
        lemma_rates(bitmap, (n - 1) as nat, k);
        let rest = sensor::rates_below(bitmap, (n - 1) as nat);
        let rate = (1000int / (k + 1)) as u32;
        let last = (1000int / (n as int)) as u32;
        assert(1000int / 1 == 1000 && 1000int / 2 == 500 && 1000int / 3 == 333 && 1000int / 4
            == 250 && 1000int / 5 == 200 && 1000int / 6 == 166 && 1000int / 7 == 142 && 1000int / 8
            == 125);
        assert(rate == last <==> k == n - 1);
        if sensor::has_bit(bitmap, n - 1) {
            let all = rest.push(last);
            if rest.contains(rate) {
                let i = choose|i: int| 0 <= i < rest.len() && rest[i] == rate;
                assert(all[i] == rate);
            }
            assert(all[rest.len() as int] == last);
            if all.contains(rate) && rate != last {
                let i = choose|i: int| 0 <= i < all.len() && all[i] == rate;
                assert(rest[i] == rate);
            }
        }
    }
}

/// A list of DPI values without a step is read as it stands.
pub proof fn plain_dpi_list_is_read(s: Seq<u8>, n: nat)
    requires
        s.len() == 2 * n,
        forall|i: int| 0 <= i < n ==> 0 < #[trigger] s[2 * i] * 256 + s[2 * i + 1] < 0xE000,
    ensures
        sensor::dpi_list_of(s).len() == n,
        forall|i: int|
            0 <= i < n ==> #[trigger] sensor::dpi_list_of(s)[i] == s[2 * i] * 256 + s[2 * i + 1],
{
    lemma_entries(s, n);
    lemma_plain(sensor::list_entries(s), 0, Seq::empty());
}

proof fn lemma_entries(s: Seq<u8>, n: nat)
    requires
        s.len() == 2 * n,
        forall|i: int| 0 <= i < n ==> 0 < #[trigger] s[2 * i] * 256 + s[2 * i + 1] < 0xE000,
    ensures
        sensor::list_entries(s).len() == n,
        forall|i: int|
            0 <= i < n ==> #[trigger] sensor::list_entries(s)[i] == s[2 * i] * 256 + s[2 * i + 1],
    decreases n,
{
    if n > 0 {
        let first: int = 0;
        assert(0 < s[2 * first] * 256 + s[2 * first + 1] < 0xE000);
        let t = s.skip(2);
        assert forall|i: int| 0 <= i < n - 1 implies 0 < #[trigger] t[2 * i] * 256 + t[2 * i + 1]
            < 0xE000 by {
            assert(t[2 * i] == s[2 * (i + 1)] && t[2 * i + 1] == s[2 * (i + 1) + 1]);
        }
        lemma_entries(t, (n - 1) as nat);
        assert forall|i: int| 0 <= i < n implies #[trigger] sensor::list_entries(s)[i] == s[2 * i]
            * 256 + s[2 * i + 1] by {
            if i > 0 {
                assert(sensor::list_entries(s)[i] == sensor::list_entries(t)[i - 1]);
                assert(t[2 * (i - 1)] == s[2 * i] && t[2 * (i - 1) + 1] == s[2 * i + 1]);
            }
        }
    }
}

proof fn lemma_plain(entries: Seq<u16>, i: int, acc: Seq<u32>)
    requires
        0 <= i <= entries.len(),
        forall|k: int| 0 <= k < entries.len() ==> #[trigger] entries[k] < 0xE000,
        acc.len() == i,
        forall|k: int| 0 <= k < i ==> #[trigger] acc[k] == entries[k],
    ensures
        sensor::expand_entries(entries, i, acc).len() == entries.len(),
        forall|k: int|
            0 <= k < entries.len() ==> #[trigger] sensor::expand_entries(entries, i, acc)[k]
                == entries[k],
    decreases entries.len() - i,
{
    if i < entries.len() {
        lemma_plain(entries, i + 1, acc.push(entries[i] as u32));
    }
}

} // verus!
