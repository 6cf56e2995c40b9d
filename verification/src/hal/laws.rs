//! The numbers and names that devices and the database use, and what follows from
//! them.

use crate::bytes;
use crate::hal::etekcity;
use crate::hal::gskill;
use crate::hal::gskill::{ButtonFunctionType, LedControlType, MacroExecMethod};
use crate::hal::hidpp;
use crate::hal::hidpp::HidppReport;
use crate::hal::marsgaming;
use crate::hal::marsgaming::ReportType;
use crate::hal::sinowealth_nubwo;
use crate::hal::sinowealth_nubwo::ColorMode;
use crate::hal::transport;
use crate::hal::transport::{Attempts, DriverKind, RequestEvent, RequestStep, Routing};
use crate::text;
use vstd::prelude::*;

verus! {

/// A number of two bytes is 256 times the one and once the other.
pub proof fn words_are_made_of_bytes(v: u16, hi: u8, lo: u8)
    ensures
        bytes::be16(hi, lo) == 256 * hi + lo,
        256 * bytes::hi8(v) + bytes::lo8(v) == v,
        bytes::be_bytes(v).len() == 2,
        256 * bytes::be_bytes(v)[0] + bytes::be_bytes(v)[1] == v,
        bytes::le_bytes(v).len() == 2,
        bytes::le_bytes(v)[0] + 256 * bytes::le_bytes(v)[1] == v,
{
}

/// A request is its header and its parameters, filled up with zeros: seven bytes,
/// or twenty.
pub proof fn request_layout(device: u8, sub_id: u8, address: u8, params: Seq<u8>, i: int)
    ensures
        ({
            let r = hidpp::short_request(device, sub_id, address, params);
            &&& r.len() == 7
            &&& r[0] == 0x10 && r[1] == device && r[2] == sub_id && r[3] == address
            &&& 0 <= i < 3 && i < params.len() ==> r[4 + i] == params[i]
            &&& 0 <= i < 3 && i >= params.len() ==> r[4 + i] == 0
            &&& HidppReport::is_report(r)
        }),
        ({
            let r = hidpp::long_request(device, sub_id, address, params);
            &&& r.len() == 20
            &&& r[0] == 0x11 && r[1] == device && r[2] == sub_id && r[3] == address
            &&& 0 <= i < 16 && i < params.len() ==> r[4 + i] == params[i]
            &&& 0 <= i < 16 && i >= params.len() ==> r[4 + i] == 0
            &&& HidppReport::is_report(r)
        }),
{
}

/// What is read from a report: its parts stand where a request has them.
pub proof fn report_parts(r: HidppReport, i: int)
    ensures
        r.wire().len() == if r is Short {
            7int
        } else {
            20
        },
        r.wire()[0] == if r is Short {
            0x10int
        } else {
            0x11
        },
        r.wire()[1] == r.device(),
        r.wire()[2] == r.sub(),
        r.wire()[3] == r.addr(),
        0 <= i < r.payload().len() ==> r.wire()[4 + i] == r.payload()[i],
        r.reports_error() <==> r.wire()[2] == if r is Short {
            0x8Fint
        } else {
            0xFF
        },
{
}

/// The function and the caller each have half a byte, the function the upper one.
pub proof fn function_byte_halves(function: u8, sw_id: u8)
    ensures
        function < 16 && sw_id < 16 ==> hidpp::function_byte(function, sw_id) / 16 == function
            && hidpp::function_byte(function, sw_id) % 16 == sw_id,
{
}

/// A report answers the request that it repeats the header of, and an error
/// report names the request that has failed.
pub proof fn answers_repeat_the_header(
    r: HidppReport,
    device: u8,
    feature: u8,
    function: u8,
    sw_id: u8,
)
    requires
        function < 16,
        sw_id < 16,
    ensures
        r.answers(device, feature, function, sw_id) <==> r.wire()[1] == device && r.wire()[2]
            == feature && r.wire()[3] == 16 * function + sw_id,
        r.reports_error() && r.wire()[1] == device && r.wire()[3] == feature && r.wire()[4] == 16
            * function + sw_id <==> r.error_for(
            device,
            feature,
            hidpp::function_byte(function, sw_id),
        ) is Some,
        r.error_for(device, feature, hidpp::function_byte(function, sw_id)) matches Some(code)
            ==> code == r.wire()[5],
{
}

/// The division by the polynomial 0x1021 that the check sum is made of.
pub proof fn crc_division(crc: u16)
    ensures
        crc < 0x8000 ==> hidpp::crc_shift(crc) == 2 * crc,
        crc >= 0x8000 ==> hidpp::crc_shift(crc) ^ 0x1021 == 2 * crc - 0x1_0000,
        hidpp::crc_ccitt(Seq::empty()) == 0xFFFF,
{
    assert(crc < 0x8000 ==> crc & 0x8000 == 0 && (crc << 1u16) == 2 * crc) by (bit_vector);
    assert(crc >= 0x8000 ==> crc & 0x8000 != 0 && ((crc << 1u16) ^ 0x1021u16) ^ 0x1021u16 == crc
        << 1u16 && (crc << 1u16) + 0x1_0000 == 2 * crc) by (bit_vector);
}

/// Data with its check sum behind it has the check sum zero.
pub proof fn crc_of_sealed_data(s: Seq<u8>)
    ensures
        hidpp::crc_ccitt(s + bytes::be_bytes(hidpp::crc_ccitt(s))) == 0,
{
    let c = hidpp::crc_ccitt(s);
    let hi = bytes::hi8(c);
    let lo = bytes::lo8(c);
    let whole = s + bytes::be_bytes(c);
    assert(whole.drop_last() =~= s.push(hi));
    assert(s.push(hi).drop_last() =~= s);
    lemma_first_byte(c);
    let x = (c % 256) as u16;
    lemma_eight_shifts(x);
    let y = (x * 256) as u16;
    assert(hidpp::crc_ccitt(s.push(hi)) == y);
    lemma_first_byte(y);
    assert(lo == y / 256);
    lemma_eight_shifts(0);
}

proof fn lemma_first_byte(c: u16)
    ensures
        c ^ ((bytes::hi8(c) as u16) << 8) == c % 256,
{
    let h = bytes::hi8(c);
    assert(c ^ ((h as u16) << 8u16) == c % 256) by (bit_vector)
        requires
            h == c / 256,
    ;
}

proof fn lemma_eight_shifts(x: u16)
    requires
        x < 256,
    ensures
        hidpp::crc_shift_n(x, 8) == x * 256,
{
    reveal_with_fuel(hidpp::crc_shift_n, 9);
    crc_division(x);
    crc_division((2 * x) as u16);
    crc_division((4 * x) as u16);
    crc_division((8 * x) as u16);
    crc_division((16 * x) as u16);
    crc_division((32 * x) as u16);
    crc_division((64 * x) as u16);
    crc_division((128 * x) as u16);
}

/// What the error codes of HID++ 2.0 are called.
pub proof fn error_names(code: u8)
    ensures
        code == 0 ==> hidpp::error_name(code) == "SUCCESS"@,
        code == 1 ==> hidpp::error_name(code) == "UNKNOWN"@,
        code == 2 ==> hidpp::error_name(code) == "INVALID_ARGUMENT"@,
        code == 3 ==> hidpp::error_name(code) == "OUT_OF_RANGE"@,
        code == 4 ==> hidpp::error_name(code) == "HARDWARE_ERROR"@,
        code == 5 ==> hidpp::error_name(code) == "LOGITECH_INTERNAL"@,
        code == 6 ==> hidpp::error_name(code) == "INVALID_FEATURE_INDEX"@,
        code == 7 ==> hidpp::error_name(code) == "INVALID_FUNCTION_ID"@,
        code == 8 ==> hidpp::error_name(code) == "BUSY"@,
        code == 9 ==> hidpp::error_name(code) == "UNSUPPORTED"@,
        code >= 10 ==> hidpp::error_name(code) == "UNRECOGNIZED"@,
{
}

/// Mouse buttons have the bits of a mask in their order.
pub proof fn button_masks(button: u32)
    ensures
        hidpp::button_mask(1) == 1,
        1 <= button < 16 ==> hidpp::button_mask((button + 1) as u32) == 2 * hidpp::button_mask(
            button,
        ),
        button == 0 || button > 16 ==> hidpp::button_mask(button) == 0,
        hidpp::button_of_mask(0) == 0,
{
    vstd::arithmetic::power2::lemma2_to64();
    if 1 <= button < 16 {
        vstd::arithmetic::power2::lemma_pow2_unfold(button as nat);
        if button < 15 {
            vstd::arithmetic::power2::lemma_pow2_strictly_increases(button as nat, 15);
        }
    }
}

/// The bytes that functions, LED types and macro methods have on G.Skill mice.
pub proof fn gskill_codes(f: ButtonFunctionType, l: LedControlType, m: MacroExecMethod)
    ensures
        f is Wheel <==> f.code() == 0,
        f is Mouse <==> f.code() == 1,
        f is Kbd <==> f.code() == 2,
        f is Consumer <==> f.code() == 3,
        f is Macro <==> f.code() == 6,
        f is DpiUp <==> f.code() == 9,
        f is DpiDown <==> f.code() == 10,
        f is CycleDpiUp <==> f.code() == 11,
        f is CycleDpiDown <==> f.code() == 12,
        f is ProfileSwitch <==> f.code() == 13,
        f is TemporaryCpiAdjust <==> f.code() == 21,
        f is DirectDpiChange <==> f.code() == 22,
        f is CycleProfileUp <==> f.code() == 24,
        f is CycleProfileDown <==> f.code() == 25,
        f is Disable <==> f.code() == 255,
        l is AllOff <==> l.code() == 0,
        l is AllOn <==> l.code() == 1,
        l is Breathing <==> l.code() == 2,
        l is DpiLedRightCycle <==> l.code() == 3,
        l is DpiLedLeftCycle <==> l.code() == 4,
        m is ButtonLoopEnd <==> m.code() == 0,
        m is ButtonRelease <==> m.code() == 1,
        m is ButtonPress <==> m.code() == 5,
        m is ButtonLoopStart <==> m.code() == 7,
{
}

/// The resolutions of G.Skill mice: from 100 to 8200 in steps of 50, the first
/// step being 50.
pub proof fn gskill_resolutions(raw: u8, dpi: u32)
    ensures
        gskill::dpi_of_raw(raw) == 50 + 50 * raw,
        gskill::valid_dpi(dpi) <==> 100 <= dpi <= 8200 && dpi % 50 == 0,
{
}

/// The check sum of a report with one byte behind its place is that byte, and two
/// equal bytes leave no trace in it.
pub proof fn gskill_check_sum(report: Seq<u8>, b: u8)
    requires
        report.len() >= 4,
    ensures
        report.len() == 4 ==> gskill::checksum(report.push(b)) == b,
        gskill::checksum(report.push(b).push(b)) == gskill::checksum(report),
{
    let n = report.len() as int;
    lemma_xor_same(report, report.push(b), n);
    lemma_xor_same(report, report.push(b).push(b), n);
    lemma_xor_same(report.push(b), report.push(b).push(b), n + 1);
    let c = gskill::checksum(report);
    assert(c ^ b ^ b == c && 0u8 ^ b == b) by (bit_vector);
    reveal_with_fuel(gskill::xor_of, 3);
}

proof fn lemma_xor_same(a: Seq<u8>, b: Seq<u8>, n: int)
    requires
        n <= a.len() <= b.len(),
        forall|i: int| 0 <= i < n ==> a[i] == b[i],
    ensures
        gskill::xor_of(a, 4, n) == gskill::xor_of(b, 4, n),
    decreases n,
{
    if n > 4 {
        lemma_xor_same(a, b, n - 1);
    }
}

/// Buttons of Etekcity mice: the first eight stand in their places, the others
/// five further.
pub proof fn etekcity_places(button: int)
    ensures
        0 <= button <= 7 ==> etekcity::raw_index(button) == button,
        button >= 8 ==> etekcity::raw_index(button) == button + 5,
{
}

/// What the bytes of Etekcity mice are called.
pub proof fn etekcity_descriptions(raw: u8)
    ensures
        raw == 1 ==> etekcity::description(raw) == Some("button(1)"@),
        raw == 2 ==> etekcity::description(raw) == Some("button(2)"@),
        raw == 3 ==> etekcity::description(raw) == Some("button(3)"@),
        raw == 4 ==> etekcity::description(raw) == Some("special(double-click)"@),
        raw == 6 ==> etekcity::description(raw) == Some("none"@),
        raw == 7 ==> etekcity::description(raw) == Some("button(4)"@),
        raw == 8 ==> etekcity::description(raw) == Some("button(5)"@),
        raw == 9 ==> etekcity::description(raw) == Some("special(wheel-up)"@),
        raw == 10 ==> etekcity::description(raw) == Some("special(wheel-down)"@),
        raw == 11 ==> etekcity::description(raw) == Some("special(wheel-left)"@),
        raw == 12 ==> etekcity::description(raw) == Some("special(wheel-right)"@),
        raw == 13 ==> etekcity::description(raw) == Some("special(dpi-cycle-up)"@),
        raw == 14 ==> etekcity::description(raw) == Some("special(dpi-up)"@),
        raw == 15 ==> etekcity::description(raw) == Some("special(dpi-down)"@),
        raw == 16 ==> etekcity::description(raw) == Some("macro"@),
        raw == 18 ==> etekcity::description(raw) == Some("special(profile-cycle-up)"@),
        raw == 19 ==> etekcity::description(raw) == Some("special(profile-up)"@),
        raw == 20 ==> etekcity::description(raw) == Some("special(profile-down)"@),
        raw == 25 ==> etekcity::description(raw) == Some("key(KEY_CONFIG)"@),
        raw == 26 ==> etekcity::description(raw) == Some("key(KEY_PREVIOUSSONG)"@),
        raw == 27 ==> etekcity::description(raw) == Some("key(KEY_NEXTSONG)"@),
        raw == 28 ==> etekcity::description(raw) == Some("key(KEY_PLAYPAUSE)"@),
        raw == 29 ==> etekcity::description(raw) == Some("key(KEY_STOPCD)"@),
        raw == 30 ==> etekcity::description(raw) == Some("key(KEY_MUTE)"@),
        raw == 31 ==> etekcity::description(raw) == Some("key(KEY_VOLUMEUP)"@),
        raw == 32 ==> etekcity::description(raw) == Some("key(KEY_VOLUMEDOWN)"@),
        raw == 33 ==> etekcity::description(raw) == Some("key(KEY_CALC)"@),
        raw == 34 ==> etekcity::description(raw) == Some("key(KEY_MAIL)"@),
        raw == 35 ==> etekcity::description(raw) == Some("key(KEY_BOOKMARKS)"@),
        raw == 36 ==> etekcity::description(raw) == Some("key(KEY_FORWARD)"@),
        raw == 37 ==> etekcity::description(raw) == Some("key(KEY_BACK)"@),
        raw == 38 ==> etekcity::description(raw) == Some("key(KEY_STOP)"@),
        raw == 39 ==> etekcity::description(raw) == Some("key(KEY_FILE)"@),
        raw == 40 ==> etekcity::description(raw) == Some("key(KEY_REFRESH)"@),
        raw == 41 ==> etekcity::description(raw) == Some("key(KEY_HOMEPAGE)"@),
        raw == 42 ==> etekcity::description(raw) == Some("key(KEY_SEARCH)"@),
        etekcity::description(raw) is None <==> raw == 0 || raw == 5 || raw == 17 || 21 <= raw <= 24
            || raw > 42,
        etekcity::ETEKCITY_REPORT_ID_CONFIGURE_PROFILE == 4,
        etekcity::ETEKCITY_REPORT_ID_PROFILE == 5,
{
}

/// The bytes that reports and LED modes have on MARSGAMING mice, and their
/// resolutions: from 50 to 16400 in steps of 50.
pub proof fn marsgaming_codes(t: ReportType, l: marsgaming::LedMode, raw: u16, dpi: u32)
    ensures
        t is Unknown1 <==> t.code() == 1,
        t is Write <==> t.code() == 2,
        t is Read <==> t.code() == 3,
        t is Unknown4 <==> t.code() == 4,
        t is Unknown6 <==> t.code() == 6,
        l is Off <==> l.code() == 0,
        l is Static <==> l.code() == 1,
        l is Breathing <==> l.code() == 2,
        l is Rainbow <==> l.code() == 3,
        marsgaming::dpi_of_raw(raw) == 50 * raw,
        marsgaming::valid_dpi(dpi) <==> 50 <= dpi <= 16400 && dpi % 50 == 0,
{
}

/// The bytes that LED modes, resolutions and rates have on Nubwo mice.
pub proof fn nubwo_codes(c: ColorMode, dpi: u32, rate: u32)
    ensures
        c is Off <==> c.code() == 0,
        c is On <==> c.code() == 1,
        c is Breathing <==> c.code() == 2,
        c is ColorShift <==> c.code() == 3,
        c is Spectrum <==> c.code() == 4,
        c is Marquee <==> c.code() == 5,
        sinowealth_nubwo::dpi_code(dpi) == Some(4u8) <==> dpi == 1000,
        sinowealth_nubwo::dpi_code(dpi) == Some(3u8) <==> dpi == 2000,
        sinowealth_nubwo::dpi_code(dpi) == Some(2u8) <==> dpi == 3000,
        sinowealth_nubwo::dpi_code(dpi) == Some(1u8) <==> dpi == 5000,
        sinowealth_nubwo::dpi_code(dpi) == Some(0u8) <==> dpi == 15000,
        sinowealth_nubwo::dpi_code(dpi) is None <==> dpi != 1000 && dpi != 2000 && dpi != 3000 && dpi
            != 5000 && dpi != 15000,
        sinowealth_nubwo::rate_code(rate) == Some(8u8) <==> rate == 125,
        sinowealth_nubwo::rate_code(rate) == Some(4u8) <==> rate == 250,
        sinowealth_nubwo::rate_code(rate) == Some(3u8) <==> rate == 333,
        sinowealth_nubwo::rate_code(rate) == Some(2u8) <==> rate == 500,
        sinowealth_nubwo::rate_code(rate) == Some(1u8) <==> rate == 1000,
        sinowealth_nubwo::rate_code(rate) is None <==> rate != 125 && rate != 250 && rate != 333
            && rate != 500 && rate != 1000,
{
}

/// What is no HID++ report is noise, and what waits has room for sixty-four
/// reports: the oldest gives way, and all others stay in order.
pub proof fn reports_that_wait(events: Seq<Seq<u8>>, event: Seq<u8>, i: int)
    ensures
        transport::noise(event) <==> event.len() > 0 && event[0] != 0x10 && event[0] != 0x11,
        events.len() < 64 ==> transport::pushed(events, event).len() == events.len() + 1,
        events.len() == 64 ==> transport::pushed(events, event).len() == 64,
        events.len() < 64 && 0 <= i < events.len() ==> transport::pushed(events, event)[i]
            == events[i],
        events.len() == 64 && 1 <= i < 64 ==> transport::pushed(events, event)[i - 1] == events[i],
        transport::pushed(events, event).last() == event,
{
}

/// An answer ends a request, another report leaves it waiting, and an attempt
/// that ends without an answer leads to the next one as long as there are some
/// left.
pub proof fn request_steps(a: Attempts, event: RequestEvent)
    requires
        a.made <= a.max,
    ensures
        ({
            let (step, after) = a.step(event);
            let ended = event is ReadFailed || event is Elapsed;
            &&& step is Answered <==> event == RequestEvent::Report(Routing::Answer)
            &&& step is Listen <==> event == RequestEvent::Report(Routing::Noise) || event
                == RequestEvent::Report(Routing::Kept)
            &&& step is Send <==> ended && a.made < a.max
            &&& step is GiveUp <==> ended && a.made == a.max
            &&& step matches RequestStep::GiveUp { attempts } ==> attempts == a.max
            &&& after.max == a.max
            &&& after.made == a.made + if step is Send {
                1int
            } else {
                0
            }
        }),
{
}

/// The drivers that the database can name.
pub proof fn driver_names(name: Seq<char>)
    ensures
        name == "asus"@ ==> transport::driver_named(name) == Some(DriverKind::Asus),
        name == "etekcity"@ ==> transport::driver_named(name) == Some(DriverKind::Etekcity),
        name == "gskill"@ ==> transport::driver_named(name) == Some(DriverKind::Gskill),
        name == "hidpp10"@ ==> transport::driver_named(name) == Some(DriverKind::Hidpp10),
        name == "hidpp20"@ ==> transport::driver_named(name) == Some(DriverKind::Hidpp20),
        name == "logitech_g300"@ ==> transport::driver_named(name) == Some(
            DriverKind::LogitechG300,
        ),
        name == "logitech_g600"@ ==> transport::driver_named(name) == Some(
            DriverKind::LogitechG600,
        ),
        name == "marsgaming"@ ==> transport::driver_named(name) == Some(DriverKind::MarsGaming),
        name == "openinput"@ ==> transport::driver_named(name) == Some(DriverKind::OpenInput),
        name == "roccat"@ ==> transport::driver_named(name) == Some(DriverKind::Roccat),
        name == "roccat-kone-pure"@ ==> transport::driver_named(name) == Some(DriverKind::Roccat),
        name == "roccat-kone-emp"@ ==> transport::driver_named(name) == Some(DriverKind::Roccat),
        name == "sinowealth"@ ==> transport::driver_named(name) == Some(DriverKind::Sinowealth),
        name == "sinowealth-nubwo"@ ==> transport::driver_named(name) == Some(
            DriverKind::SinowealthNubwo,
        ),
        name == "steelseries"@ ==> transport::driver_named(name) == Some(DriverKind::Steelseries),
{
    reveal_strlit("asus");
    reveal_strlit("etekcity");
    reveal_strlit("gskill");
    reveal_strlit("hidpp10");
    reveal_strlit("hidpp20");
    reveal_strlit("logitech_g300");
    reveal_strlit("logitech_g600");
    reveal_strlit("marsgaming");
    reveal_strlit("openinput");
    reveal_strlit("roccat");
    reveal_strlit("roccat-kone-pure");
    reveal_strlit("roccat-kone-emp");
    reveal_strlit("sinowealth");
    reveal_strlit("sinowealth-nubwo");
    reveal_strlit("steelseries");
    assert("asus"@.len() == 4 && "etekcity"@.len() == 8 && "gskill"@.len() == 6);
    assert("hidpp10"@.len() == 7 && "hidpp20"@.len() == 7);
    assert("logitech_g300"@.len() == 13 && "logitech_g600"@.len() == 13);
    assert("marsgaming"@.len() == 10 && "openinput"@.len() == 9 && "roccat"@.len() == 6);
    assert("roccat-kone-pure"@.len() == 16 && "roccat-kone-emp"@.len() == 15);
    assert("sinowealth"@.len() == 10 && "sinowealth-nubwo"@.len() == 16);
    assert("steelseries"@.len() == 11);
    assert("hidpp10"@[5] == '1' && "hidpp20"@[5] == '2');
    assert("logitech_g300"@[10] == '3' && "logitech_g600"@[10] == '6');
    assert("marsgaming"@[0] == 'm' && "sinowealth"@[0] == 's');
    assert("gskill"@[0] == 'g' && "roccat"@[0] == 'r');
    assert("roccat-kone-pure"@[0] == 'r' && "sinowealth-nubwo"@[0] == 's');
}

/// The question for the resolutions of MARSGAMING mice, and where Nubwo mice have
/// their firmware version.
pub proof fn questions_and_versions(report: Seq<u8>, end: int, k: int)
    requires
        report.len() == 256,
        48 <= end < 256,
        report[end] == 0,
        forall|j: int| 48 <= j < end ==> 0 < #[trigger] report[j] < 128,
    ensures
        marsgaming::resolution_question().len() == 64,
        marsgaming::resolution_question().subrange(0, 8) =~= seq![
            0x01u8,
            0x03,
            0x4F,
            0,
            0x2A,
            0,
            0xFA,
            0xFA,
        ],
        8 <= k < 64 ==> marsgaming::resolution_question()[k] == 0,
        sinowealth_nubwo::firmware_text(report).len() == end - 48,
        0 <= k < end - 48 ==> sinowealth_nubwo::firmware_text(report)[k] as int == report[48 + k],
{
    lemma_zero(report, 48, end);
    let name = report.subrange(48, end);
    assert(forall|j: int| 0 <= j < name.len() ==> name[j] == report[48 + j]);
    assert(text::ascii_bytes(name));
}

proof fn lemma_zero(s: Seq<u8>, k: int, end: int)
    requires
        0 <= k <= end < s.len(),
        s[end] == 0,
        forall|j: int| k <= j < end ==> 0 < #[trigger] s[j],
    ensures
        bytes::zero_from(s, k) == end,
    decreases end - k,
{
    if k < end {
        assert(s[k] > 0);
        lemma_zero(s, k + 1, end);
    }
}

} // verus!
