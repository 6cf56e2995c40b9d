//! What the requests to a device hold, byte by byte, and how a device that does
//! as it is asked is read afterwards.

use crate::engine::device::{
    ActionType, ButtonModel, Dpi, LedMode, LedModel, ProfileModel, ResolutionModel,
};
use crate::engine::device_database::DriverConfigModel;
use crate::hal::asus::driver;
use crate::hal::asus::driver::AsusDriver;
use crate::hal::asus::load;
use crate::hal::asus::packet;
use crate::hal::asus::packet::{AsusBinding, AsusLedEntry, AsusResponse};
use crate::hal::asus::reader::{AsusLoadPhase, AsusLoading};
use crate::hal::asus::save;
use crate::hal::asus::settings;
use crate::hal::asus::table;
use crate::text;
use vstd::prelude::*;

verus! {

/// Whether a request sets a field of the settings: the command is 0x3151.
pub open spec fn sets_field(q: Seq<u8>) -> bool {
    q.len() == 64 && q[0] == 0x51 && q[1] == 0x31
}

/// The settings that a device answers with after a request: the value, in byte 4,
/// is in the word of the field that byte 2 names. The words follow the first four
/// bytes, the least significant byte first.
pub open spec fn after_request(answer: Seq<u8>, q: Seq<u8>) -> Seq<u8> {
    if sets_field(q) && q[2] < 30 {
        answer.update(4 + 2 * q[2], q[4]).update(5 + 2 * q[2], 0)
    } else {
        answer
    }
}

/// The settings that a device answers with after a list of requests.
pub open spec fn after_requests(answer: Seq<u8>, sent: Seq<Seq<u8>>) -> Seq<u8>
    decreases sent.len(),
{
    if sent.len() == 0 {
        answer
    } else {
        after_request(after_requests(answer, sent.drop_last()), sent.last())
    }
}

/// Whether a DPI value is one that a device can hold: a multiple of 50 up to
/// 12800, or of twice that.
pub open spec fn on_a_step(dpi: Dpi, doubled: bool) -> bool {
    dpi matches Dpi::Unified(v) && {
        &&& doubled ==> v % 100 == 0 && 100 <= v <= 25600
        &&& !doubled ==> v % 50 == 0 && 50 <= v <= 12800
    }
}

proof fn lemma_after_all(answer: Seq<u8>, a: Seq<Seq<u8>>, b: Seq<Seq<u8>>)
    ensures
        after_requests(answer, a + b) == after_requests(after_requests(answer, a), b),
    decreases b.len(),
{
    if b.len() == 0 {
        assert(a + b =~= a);
    } else {
        assert((a + b).drop_last() =~= a + b.drop_last());
        lemma_after_all(answer, a, b.drop_last());
    }
}

proof fn lemma_after_others(answer: Seq<u8>, sent: Seq<Seq<u8>>)
    requires
        forall|i: int| 0 <= i < sent.len() ==> !sets_field(#[trigger] sent[i]),
    ensures
        after_requests(answer, sent) == answer,
    decreases sent.len(),
{
    if sent.len() > 0 {
        lemma_after_others(answer, sent.drop_last());
    }
}

proof fn lemma_buttons_set_no_field(d: AsusDriver, buttons: Seq<ButtonModel>, n: nat)
    requires
        n <= buttons.len(),
    ensures
        forall|i: int|
            0 <= i < save::button_requests(d, buttons, n).len() ==> !sets_field(
                #[trigger] save::button_requests(d, buttons, n)[i],
            ),
    decreases n,
{
    if n > 0 {
        lemma_buttons_set_no_field(d, buttons, (n - 1) as nat);
        let earlier = save::button_requests(d, buttons, (n - 1) as nat);
        if let Some(q) = save::written_button(d, buttons[n - 1]) {
            assert(q[1] == 0x21);
            assert(save::button_requests(d, buttons, n) == earlier.push(q));
            assert forall|i: int| 0 <= i < earlier.push(q).len() implies !sets_field(
                #[trigger] earlier.push(q)[i],
            ) by {
                if i < earlier.len() {
                    assert(!sets_field(earlier[i]));
                }
            }
        }
    }
}

proof fn lemma_after_resolutions(d: AsusDriver, answer: Seq<u8>, resolutions: Seq<ResolutionModel>, n: nat)
    requires
        answer.len() == 64,
        n <= resolutions.len() <= 4,
        forall|i: int|
            0 <= i < resolutions.len() ==> (#[trigger] resolutions[i]).index == i && on_a_step(
                resolutions[i].dpi,
                d.quirks & 1 != 0,
            ),
    ensures
        ({
            let r = after_requests(answer, save::resolution_requests(d, resolutions, n));
            &&& r.len() == 64
            &&& forall|k: int| 4 + 2 * n <= k < 64 ==> #[trigger] r[k] == answer[k]
            &&& forall|i: int|
                0 <= i < n ==> (#[trigger] resolutions[i]).dpi == Dpi::Unified(
                    settings::dpi_of_stored(packet::result_word(r, 2 + 2 * i), d.quirks) as u32,
                )
        }),
    decreases n,
{
    if n > 0 {
        let m: int = n - 1;
        let earlier = save::resolution_requests(d, resolutions, m as nat);
        lemma_after_resolutions(d, answer, resolutions, m as nat);
        let before = after_requests(answer, earlier);
        let x = resolutions[m];
        let q = save::written_resolution(d, x)->0;
        assert(save::resolution_requests(d, resolutions, n) == earlier.push(q));
        assert(earlier.push(q).drop_last() =~= earlier);
        let r = after_requests(answer, earlier.push(q));
        assert(r == after_request(before, q));
        let v = x.dpi->Unified_0;
        settings::dpi_round_trip(v, d.quirks);
        assert(sets_field(q) && q[2] == m && q[4] == settings::stored_of_dpi(v, d.quirks));
        assert(r =~= before.update(4 + 2 * m, q[4]).update(5 + 2 * m, 0));
        assert forall|i: int| 0 <= i < n implies (#[trigger] resolutions[i]).dpi == Dpi::Unified(
            settings::dpi_of_stored(packet::result_word(r, 2 + 2 * i), d.quirks) as u32,
        ) by {
            if i < m {
                assert(packet::result_word(r, 2 + 2 * i) == packet::result_word(before, 2 + 2 * i));
            }
        }
    }
}

/// Settings that are saved are read back. A device with two or four resolutions
/// that keeps each value in the field that a request names is read with the rate,
/// the response time, the angle snapping and the DPI values of the profile that
/// was saved.
pub proof fn saved_settings_are_read_back(
    d: AsusDriver,
    p: ProfileModel,
    answer: Seq<u8>,
    other: ProfileModel,
    preset: Option<u32>,
    i: int,
)
    requires
        answer.len() == 64,
        p.resolutions.len() == 2 || p.resolutions.len() == 4,
        forall|j: int|
            0 <= j < p.resolutions.len() ==> (#[trigger] p.resolutions[j]).index == j && on_a_step(
                p.resolutions[j].dpi,
                d.quirks & 1 != 0,
            ),
        save::profile_plan(d, p).error is None,
        other.resolutions.len() == p.resolutions.len(),
        0 <= i < p.resolutions.len(),
        other.resolutions[i].index == i,
    ensures
        ({
            let kept = after_requests(answer, save::profile_plan(d, p).sent);
            let r = load::with_settings(d, other, kept, None, preset);
            &&& p.report_rate != 0 ==> r.report_rate == p.report_rate
            &&& p.debounce > 0 ==> r.debounce == p.debounce
            &&& p.angle_snapping > 0 ==> r.angle_snapping == 1
            &&& p.angle_snapping == 0 ==> r.angle_snapping == 0
            &&& r.resolutions[i].dpi == p.resolutions[i].dpi
        }),
{
    let n = p.resolutions.len();
    let buttons = save::button_requests(d, p.buttons, p.buttons.len());
    let rate = save::rate_plan(p).sent;
    let snapping = save::snapping_plan(p).sent;
    let response = save::debounce_plan(p).sent;
    let steps = save::resolution_requests(d, p.resolutions, n);
    let leds = save::led_requests(d, p.leds, p.leds.len());
    assert(save::rate_plan(p).error is None);
    assert(save::debounce_plan(p).error is None);
    assert(save::profile_plan(d, p).sent == buttons + rate + snapping + response + steps + leds);
    let a1 = after_requests(answer, buttons + rate);
    let a2 = after_requests(answer, buttons + rate + snapping);
    let a3 = after_requests(answer, buttons + rate + snapping + response);
    let a4 = after_requests(answer, buttons + rate + snapping + response + steps);
    let a5 = after_requests(answer, buttons + rate + snapping + response + steps + leds);
    lemma_after_all(answer, buttons, rate);
    lemma_after_all(answer, buttons + rate, snapping);
    lemma_after_all(answer, buttons + rate + snapping, response);
    lemma_after_all(answer, buttons + rate + snapping + response, steps);
    lemma_after_all(answer, buttons + rate + snapping + response + steps, leds);
    lemma_buttons_set_no_field(d, p.buttons, p.buttons.len());
    lemma_after_others(answer, buttons);
    lemma_after_others(a4, leds);
    assert(a5 == a4);
    assert(a4 == after_requests(a3, steps));
    lemma_one(answer, rate);
    lemma_one(a1, snapping);
    lemma_one(a2, response);
    assert(a1.len() == 64 && a2.len() == 64 && a3.len() == 64);
    lemma_after_resolutions(d, a3, p.resolutions, n);
    if p.report_rate != 0 {
        lemma_rate(p);
    }
    if p.debounce > 0 {
        lemma_response(p);
    }
    let at: int = 4 + 2 * n as int;
    assert(a4[at] == a3[at] && a4[at + 1] == a3[at + 1]);
    assert(a4[at + 2] == a3[at + 2] && a4[at + 3] == a3[at + 3]);
    assert(a4[at + 4] == a3[at + 4] && a4[at + 5] == a3[at + 5]);
    let r = load::with_settings(d, other, a4, None, preset);
    assert(r.resolutions[i] == load::loaded_resolution(
        d,
        other.resolutions[i],
        other.resolutions.len(),
        a4,
        None,
        preset,
    ));
    assert(p.resolutions[i].index == i);
}

proof fn lemma_one(answer: Seq<u8>, sent: Seq<Seq<u8>>)
    requires
        sent.len() <= 1,
    ensures
        after_requests(answer, sent) == if sent.len() == 0 {
            answer
        } else {
            after_request(answer, sent[0])
        },
{
    reveal_with_fuel(after_requests, 2);
    if sent.len() == 1 {
        assert(sent.drop_last() =~= Seq::empty());
    }
}

proof fn lemma_rate(p: ProfileModel)
    requires
        p.report_rate != 0,
    ensures
        save::rate_plan(p).error is None ==> {
            let k = settings::polling_rates().index_of(p.report_rate);
            0 <= k < 4 && settings::polling_rates()[k] == p.report_rate
        },
{
}

proof fn lemma_response(p: ProfileModel)
    requires
        p.debounce > 0,
    ensures
        save::debounce_plan(p).error is None ==> {
            let k = settings::debounce_times().index_of(p.debounce as u32);
            0 <= k < 8 && settings::debounce_times()[k] == p.debounce
        },
{
}

/// The requests that write the settings, byte by byte, and the words that they
/// set: the rate, the response time and angle snapping follow the resolutions.
pub proof fn setting_request_layout(d: AsusDriver, p: ProfileModel, r: ResolutionModel)
    requires
        p.resolutions.len() <= 253,
    ensures
        p.report_rate == 125 || p.report_rate == 250 || p.report_rate == 500 || p.report_rate == 1000
            ==> ({
            let sent = save::rate_plan(p).sent;
            &&& sent.len() == 1 && sets_field(sent[0])
            &&& sent[0][2] == p.resolutions.len()
            &&& sent[0][4] == if p.report_rate == 125 {
                0int
            } else if p.report_rate == 250 {
                1
            } else if p.report_rate == 500 {
                2
            } else {
                3
            }
        }),
        p.debounce > 0 && p.debounce <= 32 && p.debounce % 4 == 0 ==> ({
            let sent = save::debounce_plan(p).sent;
            &&& sent.len() == 1 && sets_field(sent[0])
            &&& sent[0][2] == p.resolutions.len() + 1
            &&& 4 * (sent[0][4] + 1) == p.debounce
        }),
        p.angle_snapping >= 0 ==> ({
            let sent = save::snapping_plan(p).sent;
            &&& sent.len() == 1 && sets_field(sent[0])
            &&& sent[0][2] == p.resolutions.len() + 2
            &&& sent[0][4] == 1 || sent[0][4] == 0
            &&& sent[0][4] == 0 <==> p.angle_snapping == 0
        }),
        r.index < 256 && on_a_step(r.dpi, d.quirks & 1 != 0) ==> ({
            let q = save::written_resolution(d, r)->0;
            &&& sets_field(q)
            &&& q[2] == r.index
            &&& r.dpi->Unified_0 == if d.quirks & 1 != 0 {
                100 * (q[4] + 1)
            } else {
                50 * (q[4] + 1)
            }
        }),
{
    let rates = settings::polling_rates();
    assert(rates[0] == 125 && rates[1] == 250 && rates[2] == 500 && rates[3] == 1000);
    let times = settings::debounce_times();
    assert(times[0] == 4 && times[1] == 8 && times[2] == 12 && times[3] == 16 && times[4] == 20
        && times[5] == 24 && times[6] == 28 && times[7] == 32);
}

/// Rates and response times that a device does not have are refused, and those
/// that are not set are not written.
pub proof fn other_settings_are_refused(p: ProfileModel)
    ensures
        save::rate_plan(p).error is Some <==> !(p.report_rate == 0 || p.report_rate == 125
            || p.report_rate == 250 || p.report_rate == 500 || p.report_rate == 1000),
        save::debounce_plan(p).error is Some <==> p.debounce > 0 && !(p.debounce <= 32 && p.debounce
            % 4 == 0),
        save::snapping_plan(p).error is None,
        p.report_rate == 0 ==> save::rate_plan(p).sent.len() == 0,
        p.debounce <= 0 ==> save::debounce_plan(p).sent.len() == 0,
        p.angle_snapping < 0 ==> save::snapping_plan(p).sent.len() == 0,
{
    let rates = settings::polling_rates();
    assert(rates[0] == 125 && rates[1] == 250 && rates[2] == 500 && rates[3] == 1000);
    let times = settings::debounce_times();
    assert(times[0] == 4 && times[1] == 8 && times[2] == 12 && times[3] == 16 && times[4] == 20
        && times[5] == 24 && times[6] == 28 && times[7] == 32);
}

/// What the answer for the settings holds: words from byte 4 on, two or four for
/// the resolutions, then the rate, the response time and angle snapping.
pub proof fn settings_answer_is_read(
    d: AsusDriver,
    p: ProfileModel,
    buf: Seq<u8>,
    preset: Option<u32>,
    i: int,
)
    requires
        buf.len() == 64,
        0 <= i < p.resolutions.len() <= 4,
        p.resolutions[i].index == i,
    ensures
        ({
            let r = load::with_settings(d, p, buf, None, preset);
            let at: int = if p.resolutions.len() <= 2 {
                8
            } else {
                12
            };
            let word = |k: int| buf[k] + 256 * buf[k + 1];
            &&& word(at) < 4 ==> r.report_rate == if word(at) == 0 {
                125int
            } else if word(at) == 1 {
                250
            } else if word(at) == 2 {
                500
            } else {
                1000
            }
            &&& word(at) >= 4 ==> r.report_rate == 1000
            &&& word(at + 2) < 8 ==> r.debounce == 4 * (word(at + 2) + 1)
            &&& word(at + 2) >= 8 ==> r.debounce == p.debounce
            &&& r.angle_snapping == word(at + 4)
            &&& r.resolutions[i].dpi == Dpi::Unified(
                (if d.quirks & 1 != 0 {
                    100 * (word(4 + 2 * i) + 1)
                } else {
                    50 * (word(4 + 2 * i) + 1)
                }) as u32,
            )
            &&& preset is Some ==> (r.resolutions[i].is_active <==> i == preset->0)
            &&& preset is None ==> r.resolutions[i].is_active == p.resolutions[i].is_active
        }),
{
    let r = load::with_settings(d, p, buf, None, preset);
    assert(r.resolutions[i] == load::loaded_resolution(
        d,
        p.resolutions[i],
        p.resolutions.len(),
        buf,
        None,
        preset,
    ));
}

/// Where a device answers for each axis, the words of a resolution are its DPI
/// values for the first and for the second.
pub proof fn axis_answer_is_read(d: AsusDriver, stored: u16, xy: Seq<u8>, i: int)
    requires
        xy.len() == 64,
        0 <= i < 4,
    ensures
        load::built_dpi(d.quirks, i, stored, Some(xy)) matches Dpi::Separate { x, y } && {
            let step: int = if d.quirks & 1 != 0 {
                100
            } else {
                50
            };
            &&& x == step * (xy[4 + 4 * i] + 256 * xy[5 + 4 * i] + 1)
            &&& y == step * (xy[6 + 4 * i] + 256 * xy[7 + 4 * i] + 1)
        },
{
}

/// The request that writes an LED: its number, its mode, its brightness and its
/// color.
pub proof fn led_request_layout(d: AsusDriver, l: LedModel)
    requires
        l.index < 256,
        l.color.red <= 255,
        l.color.green <= 255,
        l.color.blue <= 255,
        l.brightness <= 255,
    ensures
        ({
            let q = save::written_led(d, l);
            &&& q.len() == 64
            &&& q[0] == 0x51 && q[1] == 0x28
            &&& q[2] == l.index && q[3] == 0
            &&& q[6] == l.color.red && q[7] == l.color.green && q[8] == l.color.blue
            &&& d.quirks & 8 != 0 ==> q[5] == l.brightness
            &&& d.quirks & 8 == 0 ==> q[5] <= 4 && -32 <= 64 * q[5] - l.brightness <= 32
        }),
{
}

/// An LED whose mode the device has is read back from the five bytes that were
/// written: the mode, and the color. The brightness is off by half a step at the
/// most.
pub proof fn led_reads_back(d: AsusDriver, l: LedModel, other: LedModel, i: int)
    requires
        l.index < 256,
        l.color.red <= 255,
        l.color.green <= 255,
        l.color.blue <= 255,
        l.brightness <= 255,
        0 <= i < 7,
        d.led_modes[i] == l.mode,
    ensures
        ({
            let q = save::written_led(d, l);
            let r = load::loaded_led(
                d,
                other,
                AsusLedEntry { mode: q[4], brightness: q[5], r: q[6], g: q[7], b: q[8] },
            );
            &&& r.index == other.index
            &&& r.mode == l.mode
            &&& r.color == l.color
            &&& -32 <= r.brightness - l.brightness <= 32
            &&& d.quirks & 8 != 0 ==> r.brightness == l.brightness
        }),
{
    lemma_mode_number(d.led_modes@, l.mode, 0, i);
}

proof fn lemma_mode_number(modes: Seq<LedMode>, mode: LedMode, k: int, i: int)
    requires
        0 <= k <= i < modes.len(),
        modes[i] == mode,
    ensures
        k <= save::mode_number(modes, mode, k) <= i,
        modes[save::mode_number(modes, mode, k)] == mode,
    decreases i - k,
{
    if modes[k] != mode {
        lemma_mode_number(modes, mode, k + 1, i);
    }
}

/// The LEDs of an answer stand in five bytes each, from byte 4 on: mode,
/// brightness, red, green and blue.
pub proof fn led_answer_is_read(d: AsusDriver, l: LedModel, buf: Seq<u8>)
    requires
        buf.len() == 64,
        l.index < 3,
    ensures
        ({
            let at = 4 + 5 * l.index;
            let r = load::loaded_led(d, l, load::entry_of(buf, l.index));
            &&& buf[at] < 7 ==> r.mode == d.led_modes[buf[at] as int]
            &&& buf[at] >= 7 ==> r.mode is Solid
            &&& r.brightness == if d.quirks & 8 != 0 {
                buf[at + 1] as int
            } else {
                64 * buf[at + 1]
            }
            &&& r.color.red == buf[at + 2]
            &&& r.color.green == buf[at + 3]
            &&& r.color.blue == buf[at + 4]
        }),
{
}

/// The request that binds a button names its code, what it is to do and whether
/// that is a key or a button.
pub proof fn button_request_layout(src: u8, dst: u8, kind: u8)
    ensures
        ({
            let q = save::button_request(src, dst, kind);
            &&& q.len() == 64
            &&& q[0] == 0x51 && q[1] == 0x21 && q[2] == 0 && q[3] == 0
            &&& q[4] == src && q[5] == 1 && q[6] == dst && q[7] == kind
        }),
{
}

/// A button that can be written has its request sent: nothing is bound to the
/// code 0xFF, keys have kind 0, buttons and special actions kind 1.
pub proof fn written_button_kinds(d: AsusDriver, b: ButtonModel, slot: int)
    requires
        b.index < 34,
        0 <= slot < 34,
        d.button_indices[b.index as int] == Some(slot as usize),
        d.button_mapping[slot] is Some,
    ensures
        ({
            let q = save::written_button(d, b);
            &&& b.action_type is NoAction ==> q is Some && q->0[6] == 0xFF && q->0[7] == 1
            &&& b.action_type is Key && q is Some ==> q->0[7] == 0 && table::linux_key(q->0[6])
                == b.mapping_value
            &&& b.action_type is Button && q is Some ==> q->0[7] == 1 && table::kind_of_code(
                q->0[6],
            ) == Some(table::AsusButtonKind::Button(b.mapping_value))
            &&& b.action_type is Special && q is Some && b.mapping_value != 0 ==> q->0[7] == 1
                && table::kind_of_code(q->0[6]) == Some(
                table::AsusButtonKind::Special(b.mapping_value),
            )
            &&& b.action_type is Macro || b.action_type is Unknown ==> q is None
            &&& q is Some ==> q->0[4] == d.button_mapping[slot]->0
        }),
{
    table::linux_key_round_trip(b.mapping_value);
    table::code_for_action_performs(b.action_type, b.mapping_value, true);
    table::code_for_action_performs(b.action_type, b.mapping_value, false);
}

/// What the codes of buttons stand for.
pub proof fn button_codes_are_read(b: ButtonModel, code: u8)
    ensures
        ({
            let r = load::bound_button(b, (AsusBinding { action: code, type_: 1 }));
            &&& 0xF0 <= code <= 0xF2 ==> r.action_type is Button && r.mapping_value == code - 0xEF
            &&& code == 0xE4 || code == 0xE1 ==> r.action_type is Button && r.mapping_value == 4
            &&& code == 0xE5 || code == 0xE2 ==> r.action_type is Button && r.mapping_value == 5
            &&& code == 0xE8 || code == 0xD8 ==> r.action_type is Special && r.mapping_value
                == 0x4000_0004
            &&& code == 0xE9 || code == 0xD7 ==> r.action_type is Special && r.mapping_value
                == 0x4000_0005
            &&& code == 0xE6 ==> r.action_type is Special && r.mapping_value == 0x4000_0007
            &&& code == 0xE7 ==> r.action_type is Special && r.mapping_value == 0x4000_000B
            &&& code == 0xDA ==> r.action_type is Special && r.mapping_value == 0x4000_0003
            &&& code == 0xDB ==> r.action_type is Special && r.mapping_value == 0x4000_0002
            &&& 0xD0 <= code <= 0xD3 ==> r.action_type is Special && r.mapping_value == 0
            &&& 0xEA <= code <= 0xEF || code == 0xFF ==> r.action_type is NoAction
            &&& r.index == b.index
        }),
        load::bound_button(b, (AsusBinding { action: 0xFF, type_: 0 })).action_type is NoAction,
{
}

/// A profile that has changed is made active first where it is not, and saved
/// last.
pub proof fn profile_write_layout(d: AsusDriver, p: ProfileModel, several: bool, active: u32)
    requires
        p.is_dirty,
        p.index < 256,
        save::profile_plan(d, p).error is None,
    ensures
        ({
            let r = save::save_plan(d, p, several, active);
            let switched = several && p.index != active;
            let skip: int = if switched {
                1
            } else {
                0
            };
            &&& r.error is None
            &&& r.sent.len() == skip + save::profile_plan(d, p).sent.len() + 1
            &&& switched ==> r.sent[0].len() == 64 && r.sent[0][0] == 0x50 && r.sent[0][1] == 2
                && r.sent[0][2] == p.index
            &&& r.sent.subrange(skip, r.sent.len() - 1) == save::profile_plan(d, p).sent
            &&& r.sent.last().len() == 64 && r.sent.last()[0] == 0x50 && r.sent.last()[1] == 3
        }),
{
    let r = save::save_plan(d, p, several, active);
    let skip: int = if several && p.index != active {
        1
    } else {
        0
    };
    assert(r.sent.subrange(skip, r.sent.len() - 1) =~= save::profile_plan(d, p).sent);
}

/// The answer to the question for the profile: which one is active, which
/// resolution is, and the two firmware versions.
pub proof fn profile_answer_is_read(buf: Seq<u8>, strix: bool)
    requires
        buf.len() == 64,
    ensures
        ({
            let r = packet::profile_info(buf, strix);
            &&& r.profile_id == if strix {
                buf[9]
            } else {
                buf[10]
            }
            &&& buf[11] == 0 ==> r.dpi_preset is None
            &&& buf[11] > 0 ==> r.dpi_preset == Some((buf[11] - 1) as u32)
            &&& r.firmware_primary == (buf[15], buf[14], buf[13])
            &&& r.firmware_secondary == (buf[6], buf[5], buf[4])
        }),
        packet::signals_error(buf) <==> buf[0] == 0xFF && buf[1] == 0xAA,
{
}

/// The two bytes of a binding: what a button does, and whether that is a key or a
/// button. Seventeen of them follow the first four bytes of an answer.
pub proof fn binding_answer_is_read(buf: Seq<u8>, k: int)
    requires
        buf.len() == 64,
        0 <= k < 17,
    ensures
        packet::binding_at(buf, k).action == buf[4 + 2 * k],
        packet::binding_at(buf, k).type_ == buf[5 + 2 * k],
{
}

/// The bits that the names of quirks stand for.
pub proof fn quirk_names(name: Seq<char>)
    ensures
        name == "DOUBLE_DPI"@ ==> settings::quirk_bit(name) == 1,
        name == "STRIX_PROFILE"@ ==> settings::quirk_bit(name) == 2,
        name == "BATTERY_V2"@ ==> settings::quirk_bit(name) == 4,
        name == "RAW_BRIGHTNESS"@ ==> settings::quirk_bit(name) == 8,
        name == "SEPARATE_XY_DPI"@ ==> settings::quirk_bit(name) == 16,
        name == "SEPARATE_LEDS"@ ==> settings::quirk_bit(name) == 32,
        name == "BUTTONS_SECONDARY"@ ==> settings::quirk_bit(name) == 64,
{
    reveal_strlit("DOUBLE_DPI");
    reveal_strlit("STRIX_PROFILE");
    reveal_strlit("BATTERY_V2");
    reveal_strlit("RAW_BRIGHTNESS");
    reveal_strlit("SEPARATE_XY_DPI");
    reveal_strlit("SEPARATE_LEDS");
    reveal_strlit("BUTTONS_SECONDARY");
    assert("DOUBLE_DPI"@[0] == 'D' && "BATTERY_V2"@[0] == 'B');
    assert("STRIX_PROFILE"@[1] == 'T' && "SEPARATE_LEDS"@[1] == 'E');
    assert("DOUBLE_DPI"@.len() == 10 && "BATTERY_V2"@.len() == 10);
    assert("STRIX_PROFILE"@.len() == 13 && "SEPARATE_LEDS"@.len() == 13);
    assert("RAW_BRIGHTNESS"@.len() == 14 && "SEPARATE_XY_DPI"@.len() == 15);
    assert("BUTTONS_SECONDARY"@.len() == 17);
}

/// The names of LED modes, whatever the case of their letters.
pub proof fn led_mode_names(s: Seq<char>, t: Seq<char>)
    ensures
        s == "ON"@ || s == "SOLID"@ ==> settings::led_mode_named(s) is Solid,
        s == "BREATHING"@ ==> settings::led_mode_named(s) is Breathing,
        s == "CYCLE"@ ==> settings::led_mode_named(s) is Cycle,
        s == "OFF"@ ==> settings::led_mode_named(s) is Off,
        s == "COLORWAVE"@ ==> settings::led_mode_named(s) is ColorWave,
        text::same_ignoring_case(s, t) ==> settings::led_mode_named(s) == settings::led_mode_named(
            t,
        ),
{
    reveal_strlit("ON");
    reveal_strlit("SOLID");
    reveal_strlit("BREATHING");
    reveal_strlit("CYCLE");
    reveal_strlit("OFF");
    reveal_strlit("COLORWAVE");
    assert("CYCLE"@[0] == 'C' && "SOLID"@[0] == 'S');
    assert("COLORWAVE"@[0] == 'C' && "BREATHING"@[0] == 'B');
    assert("CYCLE"@.len() == 5 && "SOLID"@.len() == 5);
    assert("COLORWAVE"@.len() == 9 && "BREATHING"@.len() == 9);
    if text::same_ignoring_case(s, t) {
        lemma_case(s, t, "ON"@);
        lemma_case(s, t, "SOLID"@);
        lemma_case(s, t, "BREATHING"@);
        lemma_case(s, t, "CYCLE"@);
        lemma_case(s, t, "OFF"@);
        lemma_case(s, t, "COLORWAVE"@);
    }
}

proof fn lemma_case(s: Seq<char>, t: Seq<char>, name: Seq<char>)
    requires
        text::same_ignoring_case(s, t),
    ensures
        text::same_ignoring_case(s, name) == text::same_ignoring_case(t, name),
{
    if text::same_ignoring_case(s, name) {
        assert forall|i: int| 0 <= i < t.len() implies text::ascii_lower(#[trigger] t[i])
            == text::ascii_lower(name[i]) by {
            assert(text::ascii_lower(s[i]) == text::ascii_lower(name[i]));
        }
    }
    if text::same_ignoring_case(t, name) {
        assert forall|i: int| 0 <= i < s.len() implies text::ascii_lower(#[trigger] s[i])
            == text::ascii_lower(name[i]) by {
            assert(text::ascii_lower(t[i]) == text::ascii_lower(name[i]));
        }
    }
}

/// A driver that was configured: the codes and modes that the database gives, and
/// eight codes and seven modes where it gives none.
pub proof fn configured_driver(d: AsusDriver, c: DriverConfigModel, i: int)
    requires
        driver::configured(d, c),
    ensures
        0 <= i < 17 && i < c.button_mapping.len() ==> d.button_mapping[i] == Some(
            c.button_mapping[i],
        ),
        c.button_mapping.len() == 0 && c.button_mapping_secondary.len() == 0 ==> {
            &&& d.button_mapping[0] == Some(0xF0u8) && d.button_mapping[1] == Some(0xF1u8)
            &&& d.button_mapping[2] == Some(0xF2u8) && d.button_mapping[3] == Some(0xE4u8)
            &&& d.button_mapping[4] == Some(0xE5u8) && d.button_mapping[5] == Some(0xE6u8)
            &&& d.button_mapping[6] == Some(0xE8u8) && d.button_mapping[7] == Some(0xE9u8)
            &&& 8 <= i < 34 ==> d.button_mapping[i] is None
        },
        0 <= i < 7 && i < c.led_modes.len() ==> d.led_modes[i] == settings::led_mode_named(
            c.led_modes[i],
        ),
        c.led_modes.len() == 0 ==> d.led_modes@ =~= seq![
            LedMode::Solid,
            LedMode::Breathing,
            LedMode::Cycle,
            LedMode::Solid,
            LedMode::Solid,
            LedMode::Solid,
            LedMode::Solid,
        ],
{
    assert(d.button_mapping@ == driver::configured_slots(c));
    assert(d.led_modes@ == driver::configured_led_modes(c));
    assert(forall|k: int| 0 <= k < 34 ==> d.button_mapping[k] == d.button_mapping@[k]);
    assert(forall|k: int| 0 <= k < 7 ==> d.led_modes[k] == d.led_modes@[k]);
}

/// The order in which the codes of buttons are numbered.
pub proof fn button_code_order()
    ensures
        table::button_codes() =~= seq![
            0xF0u8, 0xF1, 0xF2, 0xE8, 0xE9, 0xE6, 0xE4, 0xE5, 0xE1, 0xE2, 0xE7, 0xEA, 0xEB, 0xEC,
            0xED, 0xEE, 0xEF, 0xD0, 0xD1, 0xD2, 0xD3, 0xD7, 0xD8, 0xDA, 0xDB,
        ],
{
}

/// What is known of a profile before anything is read.
pub proof fn prepared_profiles(modes: Seq<LedMode>, p: ProfileModel, i: int)
    requires
        0 <= i < p.leds.len(),
    ensures
        ({
            let r = driver::prepared_profile(modes, p);
            &&& r.report_rates =~= seq![125u32, 250, 500, 1000]
            &&& r.debounces =~= seq![4u32, 8, 12, 16, 20, 24, 28, 32]
            &&& r.leds[i].modes == modes && r.leds[i].color_depth == 3
            &&& r.leds[i].index == p.leds[i].index
        }),
{
}

/// What a reading asks for at each point.
pub proof fn reading_requests(s: AsusLoading)
    requires
        s.consistent(),
    ensures
        s.request() is None <==> s.load.phase is Done || s.load.phase is Failed,
        s.request() matches Some(q) ==> {
            let byte: u32 = match s.load.phase {
                AsusLoadPhase::AskProfile => 0,
                AsusLoadPhase::Switch => s.info.profiles[s.load.at as int].index % 256,
                AsusLoadPhase::AskButtons => 0,
                AsusLoadPhase::AskSecondaryButtons { primary: _ } => 1,
                AsusLoadPhase::AskSettings => 0,
                AsusLoadPhase::AskXyDpi { settings: _ } => 2,
                AsusLoadPhase::AskLeds => 0,
                AsusLoadPhase::AskLed { led } => s.info.profiles[s.load.at as int].leds[led as int].index
                    % 256,
                _ => s.load.initial_id % 256,
            };
            let switching = s.load.phase is Switch || s.load.phase is Restore;
            &&& q.len() == 64
            &&& q[2] == byte
            &&& q[0] == if switching {
                0x50int
            } else {
                0x12
            }
            &&& s.load.phase is AskProfile ==> q[1] == 0
            &&& switching ==> q[1] == 2
            &&& s.load.phase is AskLeds || s.load.phase is AskLed ==> q[1] == 3
            &&& s.load.phase is AskSettings || s.load.phase is AskXyDpi ==> q[1] == 4
            &&& s.load.phase is AskButtons || s.load.phase is AskSecondaryButtons ==> q[1] == 5
        },
{
    lemma_low(s.load.initial_id);
    if s.load.at < s.info.profiles.len() {
        let p = s.info.profiles[s.load.at as int];
        lemma_low(p.index);
        if let AsusLoadPhase::AskLed { led } = s.load.phase {
            lemma_low(p.leds[led as int].index);
        }
    }
}

proof fn lemma_low(v: u32)
    ensures
        v as u8 == v % 256,
{
    assert(v as u8 == v % 256) by (bit_vector);
}

/// What becomes of an answer at each point: buttons, settings and LEDs of a
/// profile are read in this order, and then the next profile.
pub proof fn reading_steps(s: AsusLoading, d: AsusDriver, reply: AsusResponse)
    requires
        s.consistent(),
        s.info.profiles.len() < usize::MAX,
        !packet::signals_error(reply.buf@),
    ensures
        ({
            let n = s.after(d, Some(reply));
            let p = s.profile();
            let q = n.info.profiles[s.load.at as int];
            let buf = reply.buf@;
            &&& s.load.phase is AskProfile ==> {
                let id: int = if d.quirks & 2 != 0 {
                    buf[9] as int
                } else {
                    buf[10] as int
                };
                &&& n.load.initial_id == if s.info.profiles.len() > 1 {
                    id
                } else {
                    0
                }
                &&& buf[11] == 0 ==> n.load.preset is None
                &&& buf[11] > 0 ==> n.load.preset == Some((buf[11] - 1) as u32)
                &&& n.load.at == 0
            }
            &&& s.load.phase is Switch ==> n.load.phase is AskButtons && n.info == s.info
            &&& s.load.phase is AskButtons && d.quirks & 64 == 0 ==> n.load.phase is AskSettings
                && q == load::with_buttons(d, p, buf, None)
            &&& s.load.phase is AskButtons && d.quirks & 64 != 0 ==> n.load.phase
                == (AsusLoadPhase::AskSecondaryButtons { primary: reply }) && n.info == s.info
            &&& s.load.phase matches AsusLoadPhase::AskSecondaryButtons { primary }
                ==> n.load.phase is AskSettings && q == load::with_buttons(
                d,
                p,
                primary.buf@,
                Some(buf),
            )
            &&& s.load.phase is AskSettings && d.quirks & 16 != 0 ==> n.load.phase
                == (AsusLoadPhase::AskXyDpi { settings: reply }) && n.info == s.info
            &&& s.load.phase is AskSettings && d.quirks & 16 == 0 && p.leds.len() > 0 ==> {
                &&& q == load::with_settings(d, p, buf, None, s.load.preset)
                &&& n.load.at == s.load.at
                &&& d.quirks & 32 == 0 ==> n.load.phase is AskLeds
                &&& d.quirks & 32 != 0 ==> n.load.phase == (AsusLoadPhase::AskLed { led: 0 })
            }
            &&& s.load.phase is AskLeds ==> n.load.at == s.load.at + 1
            &&& s.load.phase matches AsusLoadPhase::AskLed { led } ==> {
                &&& led + 1 < p.leds.len() ==> n.load.phase == (AsusLoadPhase::AskLed {
                    led: (led + 1) as usize,
                }) && q == load::with_led(d, p, led as int, buf)
                &&& led + 1 == p.leds.len() ==> n.load.at == s.load.at + 1
            }
            &&& s.load.phase is Restore ==> n.load.phase is Done
        }),
        s.after(d, None).load.phase is Failed,
        s.after(d, None).info == s.info,
{
}

/// The profile that comes next is marked as active if it is the one that was so at
/// first, and is made active before it is read if it is not; after the last one
/// the first is restored.
pub proof fn next_profile_is_read(s: AsusLoading, at: usize)
    requires
        at <= s.info.profiles.len(),
    ensures
        ({
            let n = s.enter(at);
            &&& n.load.at == at
            &&& at < s.info.profiles.len() ==> {
                let was = s.info.profiles[at as int].index == s.load.initial_id;
                &&& n.info.profiles[at as int].is_active <==> was
                &&& was ==> n.load.phase is AskButtons
                &&& !was ==> n.load.phase is Switch
            }
            &&& at == s.info.profiles.len() && at > 1 ==> n.load.phase is Restore
            &&& at == s.info.profiles.len() && at <= 1 ==> n.load.phase is Done
        }),
{
}

/// A button is read from the binding in its slot: the first seventeen are in the
/// first answer, the others in the second.
pub proof fn slots_are_read(
    d: AsusDriver,
    b: ButtonModel,
    primary: Seq<u8>,
    secondary: Seq<u8>,
    slot: int,
)
    requires
        b.index < 34,
        0 <= slot < 34,
        primary.len() == 64,
        secondary.len() == 64,
        d.button_indices[b.index as int] == Some(slot as usize),
    ensures
        ({
            let r = load::loaded_button(d, b, primary, Some(secondary));
            &&& slot < 17 ==> r == load::bound_button(
                b,
                (AsusBinding { action: primary[4 + 2 * slot], type_: primary[5 + 2 * slot] }),
            )
            &&& slot >= 17 ==> r == load::bound_button(
                b,
                (AsusBinding {
                    action: secondary[4 + 2 * (slot - 17)],
                    type_: secondary[5 + 2 * (slot - 17)],
                }),
            )
        }),
{
}

/// What the codes of keys stand for: letters, digits, keys of the number pad and
/// function keys, and the others. A key that has a code is written with that code.
pub proof fn key_codes(code: u8)
    ensures
        code == 0x04 ==> table::linux_key(code) == 30,
        code == 0x05 ==> table::linux_key(code) == 48,
        code == 0x06 ==> table::linux_key(code) == 46,
        code == 0x07 ==> table::linux_key(code) == 32,
        code == 0x08 ==> table::linux_key(code) == 18,
        code == 0x09 ==> table::linux_key(code) == 33,
        code == 0x0A ==> table::linux_key(code) == 34,
        code == 0x0B ==> table::linux_key(code) == 35,
        code == 0x0C ==> table::linux_key(code) == 23,
        code == 0x0D ==> table::linux_key(code) == 36,
        code == 0x0E ==> table::linux_key(code) == 37,
        code == 0x0F ==> table::linux_key(code) == 38,
        code == 0x10 ==> table::linux_key(code) == 50,
        code == 0x11 ==> table::linux_key(code) == 49,
        code == 0x12 ==> table::linux_key(code) == 24,
        code == 0x13 ==> table::linux_key(code) == 25,
        code == 0x14 ==> table::linux_key(code) == 16,
        code == 0x15 ==> table::linux_key(code) == 19,
        code == 0x16 ==> table::linux_key(code) == 31,
        code == 0x17 ==> table::linux_key(code) == 20,
        code == 0x18 ==> table::linux_key(code) == 22,
        code == 0x19 ==> table::linux_key(code) == 47,
        code == 0x1A ==> table::linux_key(code) == 17,
        code == 0x1B ==> table::linux_key(code) == 45,
        code == 0x1C ==> table::linux_key(code) == 21,
        code == 0x1D ==> table::linux_key(code) == 44,
        0x1E <= code <= 0x26 ==> table::linux_key(code) == 2 + (code - 0x1E),
        code == 0x27 ==> table::linux_key(code) == 11,
        code == 0x28 ==> table::linux_key(code) == 28,
        code == 0x29 ==> table::linux_key(code) == 1,
        code == 0x2A ==> table::linux_key(code) == 14,
        code == 0x2B ==> table::linux_key(code) == 15,
        code == 0x2C ==> table::linux_key(code) == 57,
        code == 0x2D ==> table::linux_key(code) == 12,
        code == 0x2E ==> table::linux_key(code) == 78,
        code == 0x35 ==> table::linux_key(code) == 41,
        code == 0x36 ==> table::linux_key(code) == 13,
        code == 0x38 ==> table::linux_key(code) == 53,
        0x3A <= code <= 0x43 ==> table::linux_key(code) == 59 + (code - 0x3A),
        code == 0x44 ==> table::linux_key(code) == 87,
        code == 0x45 ==> table::linux_key(code) == 88,
        code == 0x4A ==> table::linux_key(code) == 102,
        code == 0x4B ==> table::linux_key(code) == 104,
        code == 0x4C ==> table::linux_key(code) == 111,
        code == 0x4E ==> table::linux_key(code) == 109,
        code == 0x4F ==> table::linux_key(code) == 106,
        code == 0x50 ==> table::linux_key(code) == 105,
        code == 0x51 ==> table::linux_key(code) == 108,
        code == 0x52 ==> table::linux_key(code) == 103,
        0x59 <= code <= 0x5B ==> table::linux_key(code) == 79 + (code - 0x59),
        0x5C <= code <= 0x5E ==> table::linux_key(code) == 75 + (code - 0x5C),
        0x5F <= code <= 0x61 ==> table::linux_key(code) == 71 + (code - 0x5F),
        code < 4 || code > 0x61 ==> table::linux_key(code) == 0,
        table::linux_key(code) != 0 ==> table::asus_key(table::linux_key(code)) == Some(code),
{
    table::asus_key_round_trip(code);
}

/// A resolution that the answer has no word for is read as the lowest value.
pub proof fn missing_resolutions(d: AsusDriver, p: ProfileModel, buf: Seq<u8>, i: int)
    requires
        buf.len() == 64,
        0 <= i < p.resolutions.len(),
        p.resolutions[i].index >= 4 || p.resolutions.len() <= 2 && p.resolutions[i].index >= 2,
    ensures
        load::with_settings(d, p, buf, None, None).resolutions[i].dpi == Dpi::Unified(
            if d.quirks & 1 != 0 {
                100u32
            } else {
                50
            },
        ),
{
}

} // verus!
