//! What the registers, pages and macros of a device mean, byte by byte, and how
//! what is written is read.

use crate::engine::device::{ButtonModel, DeviceModel, Dpi, LedMode, ProfileModel};
use crate::engine::special_action as sa;
use crate::hal::hidpp;
use crate::hal::hidpp10::binding::Hidpp10ButtonBinding;
use crate::hal::hidpp10::commit;
use crate::hal::hidpp10::commit::{CommitActionModel, Hidpp10CommitPhase};
use crate::hal::hidpp10::driver;
use crate::hal::hidpp10::driver::DriverModel;
use crate::hal::hidpp10::load;
use crate::hal::hidpp10::load::{ActionModel, Hidpp10LoadPhase, Loading};
use crate::hal::hidpp10::macros;
use crate::hal::hidpp10::macros::{MacroEvent, MacroState};
use crate::hal::hidpp10::memory;
use crate::hal::hidpp10::profile;
use crate::hal::hidpp10::profile::OnboardModel;
use crate::hal::hidpp10::register;
use crate::hal::hidpp10::register::{ReplyKind, RequestModel};
use crate::hal::hidpp10::table;
use crate::hal::hidpp10::table::DpiMapping;
use crate::hal::hidpp10::types::{
    BatteryChargeState, BatteryLevel, Hidpp10ProfileType, Hidpp10ResolutionLongPayload, LedStatus,
};
use crate::text;
use vstd::prelude::*;

verus! {

/// The rate register is set to an interval in milliseconds, and read as the rate
/// that it was set to.
pub proof fn rate_register_is_read_back(d: DriverModel, p: ProfileModel, other: ProfileModel)
    requires
        4 <= p.report_rate <= 1000,
        1000int % p.report_rate as int == 0,
    ensures
        driver::rate_write(d, p) matches Some(q) && {
            &&& q.wire.len() == 7
            &&& q.wire[0] == 0x10 && q.wire[1] == d.device_index && q.wire[2] == 0x80 && q.wire[3]
                == 0x64
            &&& q.wire[4] * p.report_rate == 1000
            &&& q.wire[5] == 0 && q.wire[6] == 0
            &&& driver::with_register_rate(other, q.wire.subrange(4, 7)).report_rate
                == p.report_rate
        },
{
    let r = p.report_rate as int;
    let q = 1000int / r;
    assert(q * r == 1000) by (nonlinear_arith)
        requires
            4 <= r <= 1000,
            q == 1000int / r,
            1000int % r == 0,
    ;
    assert(1 <= q <= 250) by (nonlinear_arith)
        requires
            q * r == 1000,
            4 <= r <= 1000,
    ;
    assert(1000int / q == r) by (nonlinear_arith)
        requires
            q * r == 1000,
            1 <= q,
    ;
    assert(driver::rate_byte(p.report_rate) == q);
}

/// No profile without a rate has one written.
pub proof fn no_rate_is_not_written(d: DriverModel, p: ProfileModel)
    ensures
        driver::rate_write(d, p) is None <==> p.report_rate == 0,
{
}

/// The resolution register is set to the bytes of the active resolution: one on
/// the G9, one for each axis on others.
pub proof fn resolution_register_layout(d: DriverModel, p: ProfileModel, i: int, x: u32, y: u32)
    requires
        0 <= i < p.resolutions.len(),
        p.resolutions[i].is_active,
        forall|j: int| 0 <= j < i ==> !(#[trigger] p.resolutions[j]).is_active,
        p.resolutions[i].dpi == (Dpi::Separate { x, y }) || (x == y && p.resolutions[i].dpi
            == Dpi::Unified(x)),
    ensures
        driver::resolution_write(d, p) matches Some(q) && {
            let raw_x = table::raw_of_dpi(d.dpi_table, x);
            let raw_y = table::raw_of_dpi(d.dpi_table, y);
            &&& q.wire[1] == d.device_index
            &&& q.wire[3] == 0x63
            &&& q.wire[4] == raw_x
            &&& d.profile_type is G9 ==> q.wire.len() == 7 && q.wire[0] == 0x10 && q.wire[2] == 0x80
                && q.wire[5] == 0 && q.wire[6] == 0
            &&& !(d.profile_type is G9) ==> q.wire.len() == 20 && q.wire[0] == 0x11 && q.wire[2]
                == 0x82 && q.wire[5] == 0 && q.wire[6] == raw_y && forall|k: int|
                7 <= k < 20 ==> #[trigger] q.wire[k] == 0
        },
{
    assert(driver::first_active(p.resolutions, i));
    let k = choose|k: int| driver::first_active(p.resolutions, k);
    assert(k == i);
}

/// The color register is set to red, green and blue of the first LED, and every
/// LED is read in the color that the register was set to.
pub proof fn color_register_is_read_back(d: DriverModel, p: ProfileModel, other: ProfileModel, i: int)
    requires
        p.leds.len() > 0,
        p.leds[0].color.red <= 255,
        p.leds[0].color.green <= 255,
        p.leds[0].color.blue <= 255,
        0 <= i < other.leds.len(),
    ensures
        driver::color_write(d, p) matches Some(q) && {
            &&& q.wire.len() == 7
            &&& q.wire[0] == 0x10 && q.wire[1] == d.device_index && q.wire[2] == 0x80 && q.wire[3]
                == 0x57
            &&& q.wire[4] == p.leds[0].color.red && q.wire[5] == p.leds[0].color.green && q.wire[6]
                == p.leds[0].color.blue
            &&& driver::with_register_color(other, q.wire.subrange(4, 7)).leds[i].color
                == p.leds[0].color
            &&& driver::with_register_color(other, q.wire.subrange(4, 7)).leds[i].mode
                == LedMode::Solid
        },
{
}

/// Without a table a byte stands for fifty times its number.
pub proof fn plain_resolution_bytes(raw: u8, dpi: u32)
    ensures
        table::dpi_of_raw(Seq::empty(), raw) == raw * 50,
        dpi <= 12750 ==> table::raw_of_dpi(Seq::empty(), dpi) == dpi / 50,
        dpi > 12750 ==> table::raw_of_dpi(Seq::empty(), dpi) == 255,
{
}

/// With a table the byte that is written is one of the table, and none of its
/// resolutions is nearer to what is wanted.
pub proof fn nearest_resolution_is_written(t: Seq<DpiMapping>, dpi: u32, j: int)
    requires
        0 <= j < t.len(),
        exists|i: int| table::nearest(t, dpi, i),
    ensures
        exists|i: int|
            0 <= i < t.len() && (#[trigger] t[i]).raw_value == table::raw_of_dpi(t, dpi) && (t[i].dpi
                - dpi <= t[j].dpi - dpi || t[i].dpi - dpi <= dpi - t[j].dpi) && (dpi - t[i].dpi
                <= t[j].dpi - dpi || dpi - t[i].dpi <= dpi - t[j].dpi),
{
    let i = choose|i: int| table::nearest(t, dpi, i);
    assert(table::nearest(t, dpi, i));
    assert(table::distance(t[i], dpi) <= table::distance(t[j], dpi));
    assert(t[i].raw_value == table::raw_of_dpi(t, dpi));
}

/// Each special action of the hardware has its code, in both directions.
pub proof fn special_codes(special: u32, code: u8)
    ensures
        table::code_of_special(special) == if special == 0x4000_0002 {
            0x01u8
        } else if special == 0x4000_0003 {
            0x02
        } else if special == 0x4000_0012 {
            0x03
        } else if special == 0x4000_0009 {
            0x04
        } else if special == 0x4000_0007 {
            0x05
        } else if special == 0x4000_000A {
            0x08
        } else if special == 0x4000_0008 {
            0x09
        } else if special == 0x4000_000F {
            0x10
        } else if special == 0x4000_000D {
            0x11
        } else if special == 0x4000_0010 {
            0x20
        } else if special == 0x4000_000E {
            0x21
        } else {
            0x00
        },
        table::special_of_code(code) != 0x4000_0000 ==> table::code_of_special(
            table::special_of_code(code),
        ) == code,
        (1 <= code <= 5 || code == 8 || code == 9 || code == 0x10 || code == 0x11 || code == 0x20
            || code == 0x21) <==> table::special_of_code(code) != 0x4000_0000,
        sa::BATTERY_LEVEL == 0x4000_0012,
        sa::RESOLUTION_CYCLE_DOWN == 0x4000_0008,
        sa::PROFILE_CYCLE_DOWN == 0x4000_000E,
{
}

/// The three bytes of a binding: its kind, and what it names. The mask of a mouse
/// button and the code of a special action have their least significant byte
/// first, the usage of a consumer control its most significant.
pub proof fn binding_layout(b: Hidpp10ButtonBinding)
    ensures
        b.wire().len() == 3,
        match b {
            Hidpp10ButtonBinding::Button { button } => 1 <= button <= 16 ==> b.wire()[0] == 0x81
                && b.wire()[1] + 256 * b.wire()[2] == vstd::arithmetic::power2::pow2(
                (button - 1) as nat,
            ),
            Hidpp10ButtonBinding::Keys { modifier_flags, key } => b.wire()[0] == 0x82 && b.wire()[1]
                == modifier_flags && b.wire()[2] == key,
            Hidpp10ButtonBinding::Special { code } => b.wire()[0] == 0x83 && b.wire()[1] + 256
                * b.wire()[2] == code,
            Hidpp10ButtonBinding::ConsumerControl { usage } => b.wire()[0] == 0x84 && b.wire()[1]
                * 256 + b.wire()[2] == usage,
            Hidpp10ButtonBinding::Disabled => b.wire()[0] == 0x8F && b.wire()[1] == 0 && b.wire()[2]
                == 0,
            Hidpp10ButtonBinding::Macro { page, offset } => b.wire()[0] == page && b.wire()[1]
                == offset && b.wire()[2] == 0,
            Hidpp10ButtonBinding::Unknown { type_byte } => b.wire()[0] == type_byte,
        },
{
    vstd::arithmetic::power2::lemma2_to64();
    if let Hidpp10ButtonBinding::Button { button } = b {
        if 1 <= button < 16 {
            vstd::arithmetic::power2::lemma_pow2_strictly_increases((button - 1) as nat, 15);
        }
    }
}

/// What a button does is read from the three bytes of its binding.
pub proof fn bound_button_is_shown(b: ButtonModel, w: Seq<u8>)
    requires
        w.len() == 3,
    ensures
        ({
            let r = driver::applied_button(b, Hidpp10ButtonBinding::of_wire(w));
            &&& r.index == b.index
            &&& w[0] == 0x81 <==> r.action_type is Button
            &&& w[0] == 0x82 || w[0] == 0x84 <==> r.action_type is Key
            &&& w[0] == 0x83 <==> r.action_type is Special
            &&& w[0] == 0x8F <==> r.action_type is NoAction
            &&& w[0] < 0x80 <==> r.action_type is Macro
            &&& w[0] == 0x82 ==> r.mapping_value == w[2]
            &&& w[0] == 0x84 ==> r.mapping_value == w[1] * 256 + w[2]
            &&& w[0] == 0x83 ==> r.mapping_value == table::special_of_code(w[1])
        }),
{
    crate::bytes::bytes_round_trip(0, w[2], w[1]);
}

/// The page of a G500 holds the color in its first three bytes, five resolutions
/// of six bytes from byte 4 on, angle correction in byte 34, the default
/// resolution in byte 35, the interval of the rate in byte 38 and thirteen
/// bindings of three bytes from byte 39 on.
pub proof fn g500_page_is_read(page: Seq<u8>, base: OnboardModel, t: Seq<DpiMapping>)
    requires
        page.len() == 512,
    ensures
        ({
            let p = profile::profile_of_page(Hidpp10ProfileType::G500, page, base, t);
            &&& p.red == page[0] && p.green == page[1] && p.blue == page[2]
            &&& p.angle_correction == (page[34] != 0)
            &&& p.default_dpi_mode == page[35]
            &&& page[38] > 0 ==> p.refresh_rate == 1000int / page[38] as int
            &&& p.dpi_modes.len() == 5
            &&& forall|i: int|
                0 <= i < 5 ==> (#[trigger] p.dpi_modes[i]).xres == table::dpi_of_raw(
                    t,
                    page[5 + 6 * i],
                ) && p.dpi_modes[i].yres == table::dpi_of_raw(t, page[7 + 6 * i])
            &&& p.buttons.len() == 13
            &&& forall|i: int|
                0 <= i < 13 ==> #[trigger] p.buttons[i] == Hidpp10ButtonBinding::of_wire(
                    page.subrange(39 + 3 * i, 42 + 3 * i),
                )
        }),
{
}

/// The page of a G700 holds five resolutions of four bytes from byte 0 on, the
/// default resolution in byte 20, the interval of the rate in byte 24 and thirteen
/// bindings from byte 35 on.
pub proof fn g700_page_is_read(page: Seq<u8>, base: OnboardModel, t: Seq<DpiMapping>)
    requires
        page.len() == 512,
    ensures
        ({
            let p = profile::profile_of_page(Hidpp10ProfileType::G700, page, base, t);
            &&& p.red == base.red && p.green == base.green && p.blue == base.blue
            &&& p.default_dpi_mode == page[20]
            &&& page[24] > 0 ==> p.refresh_rate == 1000int / page[24] as int
            &&& p.dpi_modes.len() == 5
            &&& forall|i: int|
                0 <= i < 5 ==> (#[trigger] p.dpi_modes[i]).xres == table::dpi_of_raw(t, page[4 * i])
                    && p.dpi_modes[i].yres == table::dpi_of_raw(t, page[4 * i + 1])
            &&& p.buttons.len() == 13
            &&& forall|i: int|
                0 <= i < 13 ==> #[trigger] p.buttons[i] == Hidpp10ButtonBinding::of_wire(
                    page.subrange(35 + 3 * i, 38 + 3 * i),
                )
        }),
{
}

/// The page of a G9 holds the color in its first three bytes, five resolutions of
/// three bytes from byte 4 on, the default resolution in byte 19, the interval of
/// the rate in byte 22 and ten bindings from byte 23 on.
pub proof fn g9_page_is_read(page: Seq<u8>, base: OnboardModel, t: Seq<DpiMapping>)
    requires
        page.len() == 512,
    ensures
        ({
            let p = profile::profile_of_page(Hidpp10ProfileType::G9, page, base, t);
            &&& p.red == page[0] && p.green == page[1] && p.blue == page[2]
            &&& p.default_dpi_mode == page[19]
            &&& page[22] > 0 ==> p.refresh_rate == 1000int / page[22] as int
            &&& p.dpi_modes.len() == 5
            &&& forall|i: int|
                0 <= i < 5 ==> (#[trigger] p.dpi_modes[i]).xres == table::dpi_of_raw(
                    t,
                    page[4 + 3 * i],
                ) && p.dpi_modes[i].yres == p.dpi_modes[i].xres
            &&& p.buttons.len() == 10
            &&& forall|i: int|
                0 <= i < 10 ==> #[trigger] p.buttons[i] == Hidpp10ButtonBinding::of_wire(
                    page.subrange(23 + 3 * i, 26 + 3 * i),
                )
        }),
{
}

/// An onboard profile is shown as it is: its rate, its buttons in their places,
/// its resolutions with the default one marked.
pub proof fn onboard_profile_is_shown(
    p: ProfileModel,
    o: OnboardModel,
    active: bool,
    t: Hidpp10ProfileType,
    j: int,
)
    ensures
        ({
            let r = driver::applied_profile(p, o, active, t);
            &&& r.index == p.index
            &&& r.is_active == active
            &&& r.is_enabled == o.enabled
            &&& r.report_rate == o.refresh_rate
            &&& o.name.len() > 0 ==> r.name == o.name
            &&& r.resolutions.len() == p.resolutions.len()
            &&& r.buttons.len() == p.buttons.len()
            &&& 0 <= j < p.resolutions.len() && j < o.dpi_modes.len() && j < 256 ==> {
                &&& r.resolutions[j].is_default <==> j == o.default_dpi_mode
                &&& o.dpi_modes[j].xres == o.dpi_modes[j].yres ==> r.resolutions[j].dpi
                    == Dpi::Unified(o.dpi_modes[j].xres)
                &&& o.dpi_modes[j].xres != o.dpi_modes[j].yres ==> r.resolutions[j].dpi
                    == (Dpi::Separate { x: o.dpi_modes[j].xres, y: o.dpi_modes[j].yres })
                &&& active && j == o.default_dpi_mode ==> r.resolutions[j].is_active
            }
        }),
{
}

/// The check sum of a page stands in its last two bytes, the most significant
/// first.
pub proof fn page_check_sum(page: Seq<u8>)
    requires
        page.len() == 512,
    ensures
        profile::page_is_valid(page) <==> page[510] * 256 + page[511] == hidpp::crc_ccitt(
            page.subrange(0, 510),
        ),
        profile::sealed_page(page).subrange(0, 510) == page.subrange(0, 510),
        profile::sealed_page(page)[510] * 256 + profile::sealed_page(page)[511]
            == hidpp::crc_ccitt(page.subrange(0, 510)),
{
    assert(profile::sealed_page(page).subrange(0, 510) =~= page.subrange(0, 510));
}

/// Memory is read sixteen bytes at a time: the request names the page and the
/// place in it in words of two bytes.
pub proof fn memory_read_layout(device: u8, page: u8, offset: u16)
    requires
        offset % 2 == 0,
        offset < 512,
    ensures
        ({
            let q = memory::read_request(device, page, offset);
            &&& q.wire.len() == 7
            &&& q.wire[0] == 0x10 && q.wire[1] == device && q.wire[2] == 0x83 && q.wire[3] == 0xA2
            &&& q.wire[4] == page
            &&& q.wire[5] * 2 == offset
            &&& q.reply == (ReplyKind::Long { device, sub_id: 0x83, register: 0xA2 })
        }),
{
}

/// A page is erased by a request that names it, and filled by requests that name
/// where from, where to and how much.
pub proof fn memory_write_layout(
    device: u8,
    from: u8,
    from_offset: u16,
    to: u8,
    to_offset: u16,
    size: u16,
)
    requires
        from_offset % 2 == 0,
        to_offset % 2 == 0,
        from_offset < 512,
        to_offset < 512,
    ensures
        ({
            let e = memory::erase_request(device, to).wire;
            &&& e.len() == 20
            &&& e[0] == 0x11 && e[1] == device && e[2] == 0x82 && e[3] == 0xA0
            &&& e[4] == 2 && e[10] == to
        }),
        ({
            let c = memory::copy_request(device, from, from_offset, to, to_offset, size).wire;
            &&& c.len() == 20
            &&& c[0] == 0x11 && c[1] == device && c[2] == 0x82 && c[3] == 0xA0
            &&& c[4] == 3
            &&& c[6] == from && c[7] * 2 == from_offset
            &&& c[10] == to && c[11] * 2 == to_offset
            &&& c[14] * 256 + c[15] == size
        }),
{
}

/// The first part of what is put into the buffer of a device says where it goes
/// and how much there is, and holds seven bytes of it; each later part has its
/// number and sixteen bytes.
pub proof fn buffer_write_layout(device: u8, page: u8, offset: u16, data: Seq<u8>, j: int, k: int)
    requires
        0 < data.len() <= 0xFFFF,
        offset % 2 == 0,
        offset < 512,
        0 <= j < memory::part_count(data.len() as int),
        j < 256,
    ensures
        ({
            let w = memory::part_request(device, page, offset, data, j).wire;
            &&& w.len() == 20
            &&& w[0] == 0x11 && w[1] == device
            &&& w[2] == if j == 0 {
                0x92u8
            } else {
                0x93
            }
            &&& w[3] == j
            &&& j == 0 ==> w[7] == 0 && w[8] == 0 && w[11] == 0 && w[12] == 0
            &&& j == 0 ==> w[4] == 1 && w[5] == page && w[6] * 2 == offset && w[9] * 256 + w[10]
                == data.len()
            &&& j == 0 && 0 <= k < 7 && k < data.len() ==> w[13 + k] == data[k]
            &&& j > 0 && 0 <= k < 16 && 7 + 16 * (j - 1) + k < data.len() ==> w[4 + k] == data[7
                + 16 * (j - 1) + k]
        }),
        memory::reset_request(device).wire =~= seq![0x10u8, device, 0x80, 0xA1, 1, 0, 0],
{
    let len = data.len() as int;
    let w = memory::part_request(device, page, offset, data, j).wire;
    let part = data.subrange(memory::part_start(j), memory::part_end(len, j));
    if j > 0 && 0 <= k < 16 && 7 + 16 * (j - 1) + k < data.len() {
        assert(part[k] == data[7 + 16 * (j - 1) + k]);
    }
    if j == 0 && 0 <= k < 7 && k < data.len() {
        assert(part[k] == data[k]);
    }
}

/// A page of a profile is written while the profile of the factory is active, in
/// two halves of 256 bytes, each by way of the buffer; the page is erased before
/// the first half is put into it. After that the profile itself is made active.
pub proof fn page_write_layout(device: u8, number: u8, target: u8, page: Seq<u8>)
    requires
        page.len() == 512,
    ensures
        ({
            let r = commit::profile_requests(device, number, target, page);
            let n = r.len() as int;
            &&& n == 41
            &&& r[0].wire =~= seq![0x10u8, device, 0x80, 0x0F, 0xFF, 0, 0]
            &&& r[1].wire =~= seq![0x10u8, device, 0x80, 0xA1, 1, 0, 0]
            &&& r[19].wire[4] == 2 && r[19].wire[10] == target
            &&& r[20].wire[4] == 3 && r[20].wire[6] == 0 && r[20].wire[10] == target
                && r[20].wire[11] == 0 && r[20].wire[14] == 1 && r[20].wire[15] == 0
            &&& r[21].wire =~= seq![0x10u8, device, 0x80, 0xA1, 1, 0, 0]
            &&& r[39].wire[4] == 3 && r[39].wire[6] == 0 && r[39].wire[10] == target
                && r[39].wire[11] == 128 && r[39].wire[14] == 1 && r[39].wire[15] == 0
            &&& r[40].wire =~= seq![0x10u8, device, 0x80, 0x0F, 0, number, 0]
        }),
{
    let first = memory::payload_requests(device, 0, 0, page.subrange(0, 256));
    let second = memory::payload_requests(device, 0, 0, page.subrange(256, 512));
    assert(memory::part_count(256) == 17);
    assert(first.len() == 18 && second.len() == 18);
    assert(first[0] == memory::reset_request(device) && second[0] == memory::reset_request(device));
    let body = commit::page_requests(device, target, page);
    assert(body.len() == 39);
    assert(body[0] == first[0] && body[18] == memory::erase_request(device, target));
    assert(body[19] == memory::copy_request(device, 0, 0, target, 0, 256));
    assert(body[20] == second[0] && body[38] == memory::copy_request(device, 0, 0, target, 256, 256));
    let r = commit::profile_requests(device, number, target, page);
    assert(forall|k: int| 0 <= k < 39 ==> r[k + 1] == #[trigger] body[k]);
    assert(r[1] == body[0] && r[19] == body[18] && r[20] == body[19] && r[21] == body[20] && r[39]
        == body[38]);
}

/// The register of the active profile names it by its number or by its place in
/// memory.
pub proof fn active_profile_is_read(d: DriverModel, reply: Seq<u8>, i: int)
    requires
        reply.len() == 3,
        d.onboard_profiles.len() <= u32::MAX,
    ensures
        reply[0] == 0 && reply[1] as int <= d.profile_count ==> load::named_profile(d, reply)
            == reply[1],
        reply[0] == 0 && reply[1] as int > d.profile_count ==> load::named_profile(d, reply) == 0,
        reply[0] == 1 && 0 <= i < d.onboard_profiles.len() && d.onboard_profiles[i].page == reply[1]
            && d.onboard_profiles[i].offset == reply[2] && (forall|j: int|
            0 <= j < i ==> (#[trigger] d.onboard_profiles[j]).page != reply[1]
                || d.onboard_profiles[j].offset != reply[2]) ==> load::named_profile(d, reply) == i,
        reply[0] > 1 ==> load::named_profile(d, reply) == 0,
{
    if reply[0] == 1 && load::at_address(d.onboard_profiles, reply[1], reply[2], i) {
        let k = choose|k: int| load::at_address(d.onboard_profiles, reply[1], reply[2], k);
        assert(load::at_address(d.onboard_profiles, reply[1], reply[2], k));
        assert(k == i);
    }
}

/// A directory names the page and the place of each profile in three bytes, up to
/// the first 0xFF.
pub proof fn directory_is_read(page: Seq<u8>, count: int, i: int)
    requires
        page.len() == 512,
        0 <= i < count,
        i < 170,
        forall|j: int| 0 <= j <= i ==> #[trigger] page[3 * j] != 0xFF,
    ensures
        ({
            let p = driver::directory_profiles(page, count)[i];
            p.page == page[3 * i] && p.offset == page[3 * i + 1] && p.enabled
        }),
{
    lemma_directory(page, count, 0, i);
}

proof fn lemma_directory(page: Seq<u8>, count: int, k: int, i: int)
    requires
        page.len() == 512,
        0 <= k <= i < count,
        i < 170,
        forall|j: int| 0 <= j <= i ==> #[trigger] page[3 * j] != 0xFF,
    ensures
        driver::directory_length(page, count, k) > i,
    decreases i - k,
{
    assert(page[3 * k] != 0xFF);
    if k < i {
        lemma_directory(page, count, k + 1, i);
    } else {
        lemma_directory_grows(page, count, k + 1);
    }
}

proof fn lemma_directory_grows(page: Seq<u8>, count: int, k: int)
    ensures
        driver::directory_length(page, count, k) >= k,
    decreases count - k,
{
    if 0 <= k < count && 3 * k + 2 < page.len() && page[3 * k] != 0xFF {
        lemma_directory_grows(page, count, k + 1);
    }
}

/// The instructions of a macro: their tags, their sizes and what stands in them.
pub proof fn macro_instructions(s: Seq<u8>, i: int)
    requires
        0 <= i,
        i + 5 <= s.len(),
    ensures
        ({
            let (e, n) = macros::event_at(s, i)->0;
            let (t, a, b, c, d) = (s[i], s[i + 1], s[i + 2], s[i + 3], s[i + 4]);
            &&& macros::event_at(s, i) is Some <==> t <= 3 || 0x20 <= t <= 0x24 || 0x40 <= t <= 0x45
                || t == 0x60 || t == 0x61 || t >= 0x80
            &&& t == 0x00 ==> e is Noop && n == 1
            &&& t == 0x01 ==> e is WaitForButtonRelease && n == 1
            &&& t == 0x02 ==> e is RepeatUntilButtonRelease && n == 1
            &&& t == 0x03 ==> e is Repeat && n == 1
            &&& t == 0x20 ==> e == (MacroEvent::KeyPress { key: a }) && n == 2
            &&& t == 0x21 ==> e == (MacroEvent::KeyRelease { key: a }) && n == 2
            &&& t == 0x22 ==> e == (MacroEvent::ModPress { key: a }) && n == 2
            &&& t == 0x23 ==> e == (MacroEvent::ModRelease { key: a }) && n == 2
            &&& t == 0x24 ==> (e matches MacroEvent::MouseWheel { value } && n == 2 && (value as int
                - a as int) % 256 == 0)
            &&& t == 0x40 ==> e is MouseButtonPress && n == 3
            &&& t == 0x41 ==> e is MouseButtonRelease && n == 3
            &&& t == 0x42 ==> (e matches MacroEvent::ConsumerControl { usage } && n == 3 && usage
                == a * 256 + b)
            &&& t == 0x43 ==> (e matches MacroEvent::Delay { time_ms } && n == 3 && time_ms == a
                * 256 + b)
            &&& t == 0x44 ==> e == (MacroEvent::Jump { page: a, offset: b }) && n == 3
            &&& t == 0x45 ==> e == (MacroEvent::JumpIfPressed { page: a, offset: b }) && n == 3
            &&& t == 0x60 ==> (e matches MacroEvent::MousePointerMove { x_rel, y_rel } && n == 5
                && (x_rel as int - (a * 256 + b)) % 65536 == 0 && y_rel == c * 256 + d)
            &&& t == 0x61 ==> (e matches MacroEvent::JumpIfReleasedTimeout {
                timeout_ms,
                page,
                offset,
            } && n == 5 && timeout_ms == a * 256 + b && page == c && offset == d)
            &&& t == 0xFF ==> e is End && n == 1
        }),
{
}

/// The delays of short-delay tags: steps of 4, 8, 16 and 32 milliseconds.
pub proof fn short_delay_steps(tag: u8)
    requires
        0x80 <= tag < 0xFE,
    ensures
        macros::short_delay(0x80) == 8,
        macros::short_delay((tag + 1) as u8) - macros::short_delay(tag) == if tag < 0x9F {
            4int
        } else if tag < 0xBF {
            8
        } else if tag < 0xDF {
            16
        } else {
            32
        },
{
}

/// The notification and feature registers hold their flags from the lowest byte
/// up; bits that are not in use are left out.
pub proof fn flag_registers(p: Seq<u8>, flags: u32)
    requires
        p.len() == 3,
    ensures
        p[1] < 32 && p[2] < 8 ==> register::notification_flags(p) == p[0] + 256 * p[1] + 65536
            * p[2],
        flags < 0x080000 && flags / 256 % 256 < 32 ==> ({
            let b = register::notification_bytes(flags);
            b[0] + 256 * b[1] + 65536 * b[2] == flags
        }),
        p[1] < 16 && p[1] % 2 == 0 && p[2] < 64 ==> register::feature_mask(p) == p[0] + 256 * p[1]
            + 65536 * p[2],
{
}

/// A request for a register and one that sets it differ in one byte, and each is
/// answered by a report with the same header.
pub proof fn register_request_layout(device: u8, reg: u8, params: Seq<u8>)
    requires
        params.len() == 3,
    ensures
        RequestModel::get(device, reg, params).wire =~= seq![0x10u8, device, 0x81, reg] + params,
        RequestModel::set(device, reg, params).wire =~= seq![0x10u8, device, 0x80, reg] + params,
        register::answer_of(
            RequestModel::get(device, reg, seq![0u8, 0, 0]).reply,
            seq![0x10u8, device, 0x81, reg] + params,
        ) == Some(params),
        register::answer_of(
            RequestModel::set(device, reg, params).reply,
            seq![0x10u8, device, 0x80, reg] + params,
        ) == Some(params),
{
    assert((seq![0x10u8, device, 0x81, reg] + params).subrange(4, 7) =~= params);
    assert((seq![0x10u8, device, 0x80, reg] + params).subrange(4, 7) =~= params);
}

/// The resolution register is read as it was set: what stands in the parameters
/// of the request is made into the DPI value of the first resolution.
pub proof fn resolution_register_is_read(d: DriverModel, p: ProfileModel, reply: Seq<u8>)
    requires
        p.resolutions.len() > 0,
        reply.len() >= 3,
    ensures
        ({
            let r = driver::with_register_resolution(d, p, reply);
            let x = table::dpi_of_raw(d.dpi_table, reply[0]);
            let y = table::dpi_of_raw(d.dpi_table, reply[2]);
            &&& d.profile_type is G9 || x == y ==> r.resolutions[0].dpi == Dpi::Unified(x)
            &&& !(d.profile_type is G9) && x != y ==> r.resolutions[0].dpi == (Dpi::Separate { x, y })
            &&& r.resolutions.subrange(1, r.resolutions.len() as int) =~= p.resolutions.subrange(
                1,
                p.resolutions.len() as int,
            )
            &&& r.report_rate == p.report_rate && r.leds == p.leds && r.buttons == p.buttons
        }),
{
}

/// The byte of a resolution register is the byte that was set, and stands for the
/// DPI value that was wanted if a table has it, or if it is a multiple of 50
/// without one.
pub proof fn resolution_register_is_read_back(
    d: DriverModel,
    p: ProfileModel,
    other: ProfileModel,
    v: u32,
)
    requires
        p.resolutions.len() > 0,
        p.resolutions[0].is_active,
        p.resolutions[0].dpi == Dpi::Unified(v),
        other.resolutions.len() > 0,
        d.dpi_table.len() == 0,
        v % 50 == 0,
        v <= 12750,
    ensures
        driver::resolution_write(d, p) matches Some(q) && driver::with_register_resolution(
            d,
            other,
            q.wire.subrange(4, q.wire.len() as int),
        ).resolutions[0].dpi == Dpi::Unified(v),
{
    assert(driver::first_active(p.resolutions, 0));
    let k = choose|k: int| driver::first_active(p.resolutions, k);
    assert(k == 0);
}

/// The entries of a table for a range: a step apart, rounded to multiples of 25,
/// and numbered from one on.
pub proof fn range_entries(min: u32, max: u32, step: u32, i: int)
    requires
        0 < step,
        min < max,
    ensures
        ({
            let t = table::range_table(min, max, step);
            &&& t.len() == (max - min) / step as int + 1
            &&& t[0].raw_value == 0 && t[0].dpi == 0
            &&& 0 < i < t.len() && i < 256 && min + step * i + 12 <= u32::MAX ==> t[i].raw_value == i
                && t[i].dpi % 25 == 0 && -12 <= t[i].dpi - (min + step * i) <= 12
        }),
        table::range_table(min, max, 0).len() == 0,
        table::range_table(max, min, step).len() == 0,
{
    let t = table::range_table(min, max, step);
    assert((max - min) / step as int >= 0) by (nonlinear_arith)
        requires
            min < max,
            0 < step,
    ;
    if 0 < i < t.len() && i < 256 && min + step * i + 12 <= u32::MAX {
        let x = min + step * i;
        assert(x >= 0) by (nonlinear_arith)
            requires
                x == min + step * i,
                0 < i,
        ;
        assert(t[i].dpi == (x + 12) / 25 * 25);
    }
}

/// The LED status register has half a byte for each of six LEDs, the lower half
/// first.
pub proof fn led_halves(p: Seq<u8>)
    requires
        p.len() == 3,
    ensures
        p[0] == register::led_nibble(p, 0) + 16 * register::led_nibble(p, 1),
        p[1] == register::led_nibble(p, 2) + 16 * register::led_nibble(p, 3),
        p[2] == register::led_nibble(p, 4) + 16 * register::led_nibble(p, 5),
        register::led_nibble(p, 0) < 16 && register::led_nibble(p, 2) < 16 && register::led_nibble(
            p,
            4,
        ) < 16,
{
}

/// The unit of the remaining time of a battery: seconds, minutes, hours or days.
pub proof fn battery_units(b: u8)
    ensures
        b / 16 % 4 == 0 ==> register::mileage_unit(b) == 1,
        b / 16 % 4 == 1 ==> register::mileage_unit(b) == 60,
        b / 16 % 4 == 2 ==> register::mileage_unit(b) == 60 * 60,
        b / 16 % 4 == 3 ==> register::mileage_unit(b) == 24 * 60 * 60,
{
}

/// The name of a paired device follows its length, up to fourteen bytes.
pub proof fn paired_name_length(len: u8)
    ensures
        len <= 14 ==> register::name_end(len) - 2 == len,
        len > 14 ==> register::name_end(len) - 2 == 14,
{
}

/// The numbers of battery levels, charge states and LED states.
pub proof fn state_codes(b: BatteryLevel, c: BatteryChargeState, l: LedStatus)
    ensures
        b is Unknown <==> b.code() == 0,
        b is Critical <==> b.code() == 1,
        b is CriticalLegacy <==> b.code() == 2,
        b is Low <==> b.code() == 3,
        b is LowLegacy <==> b.code() == 4,
        b is Good <==> b.code() == 5,
        b is GoodLegacy <==> b.code() == 6,
        b is FullLegacy <==> b.code() == 7,
        c is NotCharging <==> c.code() == 0,
        c is Unknown <==> c.code() == 0x20,
        c is Charging <==> c.code() == 0x21,
        c is ChargingComplete <==> c.code() == 0x22,
        c is ChargingError <==> c.code() == 0x23,
        c is ChargingFast <==> c.code() == 0x24,
        c is ChargingSlow <==> c.code() == 0x25,
        c is ToppingCharge <==> c.code() == 0x26,
        l is NoChange <==> l.code() == 0,
        l is Off <==> l.code() == 1,
        l is On <==> l.code() == 2,
        l is Blink <==> l.code() == 3,
        l is Heartbeat <==> l.code() == 4,
        l is SlowOn <==> l.code() == 5,
        l is SlowOff <==> l.code() == 6,
{
}

/// What the kinds of profiles are called, whatever the case of the letter.
pub proof fn profile_type_names(s: Seq<char>)
    ensures
        s == "G500"@ || s == "g500"@ ==> Hidpp10ProfileType::named(s) is G500,
        s == "G700"@ || s == "g700"@ ==> Hidpp10ProfileType::named(s) is G700,
        s == "G9"@ || s == "g9"@ ==> Hidpp10ProfileType::named(s) is G9,
        s.len() != 4 && s.len() != 2 ==> Hidpp10ProfileType::named(s) is Unknown,
{
    reveal_strlit("G500");
    reveal_strlit("g500");
    reveal_strlit("G700");
    reveal_strlit("g700");
    reveal_strlit("G9");
    reveal_strlit("g9");
    assert("G500"@[1] == '5' && "G700"@[1] == '7');
    assert("g500"@[1] == '5' && "g700"@[1] == '7');
    if s == "g500"@ {
        assert(text::ascii_lower(s[1]) == '5');
        assert(text::same_ignoring_case(s, "G500"@));
    }
    if s == "g700"@ {
        assert(text::ascii_lower(s[1]) == '7');
        assert(text::ascii_lower("G500"@[1]) == '5');
        assert(text::same_ignoring_case(s, "G700"@));
    }
    if s == "G700"@ {
        assert(text::ascii_lower(s[1]) == '7');
        assert(text::ascii_lower("G500"@[1]) == '5');
    }
    if s == "g9"@ {
        assert(text::same_ignoring_case(s, "G9"@));
    }
}

/// A commit sets the registers for the resolution, the rate and the color, as far
/// as the profile has them, then writes the page of the profile, if it has one,
/// and makes the profile active in the end. A register that cannot be set does
/// not stop it.
pub proof fn commit_steps(s: commit::Committing, reply: Option<Seq<u8>>)
    requires
        s.consistent(),
    ensures
        ({
            let d = s.driver;
            let p = s.profile;
            let n = s.after(reply).phase;
            let page = !(d.profile_type is Unknown) && p.index < d.onboard_profiles.len()
                && d.onboard_profiles[p.index as int].page != 0;
            &&& s.phase is Resolution && p.report_rate > 0 ==> n is Rate
            &&& s.phase is Rate && p.leds.len() > 0 ==> n is Color
            &&& s.phase is Color && page ==> n == (Hidpp10CommitPhase::Page { strict: true })
            &&& s.phase is Color && !page ==> n is SetActive
            &&& s.phase is Rate && p.leds.len() == 0 && page ==> n == (Hidpp10CommitPhase::Page {
                strict: true,
            })
            &&& s.phase == (Hidpp10CommitPhase::Page { strict: true }) && reply is None ==> n == (
            Hidpp10CommitPhase::Page { strict: false })
            &&& s.phase is Write && reply is None ==> n is SetActive
            &&& s.phase is SetActive && reply is Some ==> n is Done
            &&& s.phase is SetActive && reply is None ==> n is Failed
        }),
        s.phase is SetActive ==> (s.action() matches CommitActionModel::Send(q) && q.wire =~= seq![
            0x10u8,
            s.driver.device_index,
            0x80,
            0x0F,
            s.profile.index as u8,
            0,
            0,
        ]),
        s.phase is Page ==> (s.action() matches CommitActionModel::ReadMemory { page, offset } && page
            == s.driver.onboard_profiles[s.profile.index as int].page && offset == s.page.len()),
        s.phase is Rate ==> (s.action() matches CommitActionModel::Send(q) && q.wire[3] == 0x64),
        s.phase is Color ==> (s.action() matches CommitActionModel::Send(q) && q.wire[3] == 0x57),
        s.phase is Resolution ==> (s.action() matches CommitActionModel::Send(q) && q.wire[3]
            == 0x63),
{
}

/// What a reading asks for at each point.
pub proof fn reading_requests(s: Loading)
    ensures
        ({
            let device = s.driver.device_index;
            &&& s.phase is Directory ==> s.action() == (ActionModel::ReadMemory {
                page: 1,
                offset: s.page.len() as int,
            })
            &&& s.phase is Page ==> s.action() == (ActionModel::ReadMemory {
                page: s.profile.page,
                offset: s.page.len() as int,
            })
            &&& s.phase is CurrentProfile ==> (s.action() matches ActionModel::Send(q) && q.wire
                =~= seq![0x10u8, device, 0x81, 0x0F, 0, 0, 0])
            &&& s.phase is LeaveFactory ==> (s.action() matches ActionModel::Send(q) && q.wire
                =~= seq![0x10u8, device, 0x80, 0x0F, 0, 0, 0])
            &&& s.phase is Resolution && s.driver.profile_type is G9 ==> (
            s.action() matches ActionModel::Send(q) && q.wire =~= seq![
                0x10u8,
                device,
                0x81,
                0x63,
                0,
                0,
                0,
            ])
            &&& s.phase is Resolution && !(s.driver.profile_type is G9) ==> (
            s.action() matches ActionModel::Send(q) && q.wire.len() == 20 && q.wire[0] == 0x11
                && q.wire[1] == device && q.wire[2] == 0x83 && q.wire[3] == 0x63)
            &&& s.phase is Rate ==> (s.action() matches ActionModel::Send(q) && q.wire =~= seq![
                0x10u8,
                device,
                0x81,
                0x64,
                0,
                0,
                0,
            ])
            &&& s.phase is Color ==> (s.action() matches ActionModel::Send(q) && q.wire =~= seq![
                0x10u8,
                device,
                0x81,
                0x57,
                0,
                0,
                0,
            ])
            &&& s.phase is Done <==> s.action() is Stop
        }),
{
}

/// The registers are read one after the other for each profile, and what cannot be
/// read is left as it is.
pub proof fn reading_steps(s: Loading, reply: Option<Seq<u8>>)
    requires
        s.consistent(),
    ensures
        ({
            let n = s.after(reply);
            let p = s.info.profiles[s.at];
            let q = n.info.profiles[s.at];
            &&& s.phase is Resolution ==> n.phase is Rate && n.at == s.at
            &&& s.phase is Rate ==> n.phase is Color && n.at == s.at
            &&& s.phase is Color ==> n.at == s.at + 1
            &&& s.phase is Color && s.at + 1 < s.info.profiles.len() ==> n.phase is Resolution
                && n.info.profiles[s.at + 1].is_active == (s.info.profiles[s.at + 1].index
                == s.active)
            &&& s.phase is Color && s.at + 1 == s.info.profiles.len() ==> n.phase is Done
            &&& s.phase is Resolution || s.phase is Rate || s.phase is Color ==> (reply is None
                ==> q == p)
            &&& s.phase is Resolution ==> (reply matches Some(r) ==> q
                == driver::with_register_resolution(s.driver, p, r))
            &&& s.phase is Rate ==> (reply matches Some(r) ==> q == driver::with_register_rate(p, r))
            &&& s.phase is Color ==> (reply matches Some(r) ==> q == driver::with_register_color(
                p,
                r,
            ))
            &&& s.phase is CurrentProfile ==> (reply matches Some(r) ==> r[0] == 0xFF
                ==> n.phase is LeaveFactory)
            &&& s.phase is CurrentProfile ==> (reply matches Some(r) ==> r[0] != 0xFF ==> n.active
                == load::named_profile(s.driver, r))
            &&& s.phase is CurrentProfile && reply is None ==> n.active == 0
            &&& s.phase is LeaveFactory ==> n.active == 0
        }),
{
}

/// The pages of profiles are read in order; a profile without a page is passed
/// over, and the register of the active profile comes after the last.
pub proof fn pages_in_order(s: Loading, i: int)
    requires
        0 <= i <= s.driver.onboard_profiles.len(),
    ensures
        ({
            let n = s.next_profile(i);
            &&& i == s.driver.onboard_profiles.len() ==> n.phase is CurrentProfile
                && n.driver.onboard_profiles == s.loaded
            &&& i < s.driver.onboard_profiles.len() && s.driver.onboard_profiles[i].page != 0 ==> {
                &&& n.phase == (Hidpp10LoadPhase::Page { strict: true })
                &&& n.at == i && n.page.len() == 0
                &&& n.profile == s.driver.onboard_profiles[i]
            }
            &&& i < s.driver.onboard_profiles.len() && s.driver.onboard_profiles[i].page == 0
                ==> n == (Loading {
                loaded: s.loaded.push(s.driver.onboard_profiles[i]),
                ..s
            }).next_profile(i + 1)
        }),
{
}

/// A jump of a macro leads to a page and a place in words of two bytes; each
/// event is kept in order, and the end is kept too.
pub proof fn macro_steps(s: MacroState, chunk: Seq<u8>, page: u8, offset: u8)
    requires
        !s.done,
        s.events.len() < 255,
        s.data.len() == 0,
        s.at == 0,
        chunk.len() == 16,
    ensures
        ({
            let n = s.after(chunk);
            &&& chunk[0] == 0xFF ==> n.done && n.events == s.events.push(MacroEvent::End)
            &&& chunk[0] == 0x44 && s.jumps < 4097 ==> {
                &&& !n.done && n.page == chunk[1]
                &&& n.base == 2 * chunk[2] % 256
                &&& n.events == s.events && n.data.len() == 0 && n.jumps == s.jumps + 1
            }
            &&& chunk[0] == 0x44 && s.jumps >= 4097 ==> n.done && n.events == s.events
            &&& chunk[0] == 0x20 && chunk[2] == 0xFF ==> n.done && n.events =~= s.events.push(
                (MacroEvent::KeyPress { key: chunk[1] }),
            ).push(MacroEvent::End)
        }),
        ({
            let b = MacroState::start(page, offset);
            &&& b.page == page && b.base % 2 == 0 && b.base + b.at == offset && 0 <= b.at < 2
            &&& !b.done && b.events.len() == 0 && b.data.len() == 0
        }),
{
    reveal_with_fuel(MacroState::settled, 3);
    assert(s.data + chunk =~= chunk);
}

/// The long form of the resolution register: two bytes for each axis, and twelve
/// more.
pub proof fn long_resolution_layout(p: Hidpp10ResolutionLongPayload)
    ensures
        p.wire().len() == 16,
        p.wire()[0] == p.xres[0] && p.wire()[1] == p.xres[1],
        p.wire()[2] == p.yres[0] && p.wire()[3] == p.yres[1],
        p.wire()[4] == p.padding[0] && p.wire()[15] == p.padding[11],
{
}

/// Nothing is written unless some profile is active; the first such one is.
pub proof fn which_profile_is_committed(info: DeviceModel, i: int)
    requires
        0 <= i < info.profiles.len(),
        info.profiles[i].is_active,
        forall|j: int| 0 <= j < i ==> !(#[trigger] info.profiles[j]).is_active,
    ensures
        info.profiles[i].index < 256 ==> commit::committed_profile(info) == Some(info.profiles[i]),
        info.profiles[i].index >= 256 ==> commit::committed_profile(info) is None,
{
    assert(commit::first_active(info.profiles, i));
    let k = choose|k: int| commit::first_active(info.profiles, k);
    assert(k == i);
}

/// A byte that a table has stands for the DPI value of its first entry with that
/// byte; one that it does not have stands for nothing.
pub proof fn table_entries_are_found(t: Seq<DpiMapping>, raw: u8, i: int)
    requires
        0 <= i < t.len(),
    ensures
        t[i].raw_value == raw && (forall|j: int|
            0 <= j < i ==> (#[trigger] t[j]).raw_value != raw) ==> table::dpi_of_raw(t, raw)
            == t[i].dpi,
        (forall|j: int| 0 <= j < t.len() ==> (#[trigger] t[j]).raw_value != raw)
            ==> table::dpi_of_raw(t, raw) == 0,
{
    if table::first_with_raw(t, raw, i) {
        let k = choose|k: int| table::first_with_raw(t, raw, k);
        assert(table::first_with_raw(t, raw, k));
        assert(k == i);
    }
}

} // verus!
