//! What the reports of a device hold, byte by byte.

use crate::engine::device::{
    ActionType, ButtonModel, Dpi, LedMode, LedModel, ProfileModel, ResolutionModel,
};
use crate::engine::device_database::SinowealthDeviceModel;
use crate::hal::sinowealth::button;
use crate::hal::sinowealth::button::HwButtonType;
use crate::hal::sinowealth::commit::{Committing, SinowealthCommitPhase};
use crate::hal::sinowealth::config;
use crate::hal::sinowealth::driver;
use crate::hal::sinowealth::driver::{DataModel, Loading, SinowealthLoadPhase};
use crate::hal::sinowealth::protocol;
use crate::hal::sinowealth::protocol::{CommandId, LedType, ReportId, Sensor};
use crate::text;
use vstd::prelude::*;

verus! {

/// The numbers of reports, commands, sensors and kinds of buttons.
pub proof fn codes(r: ReportId, c: CommandId, s: Sensor, t: HwButtonType)
    ensures
        r is Config <==> r.code() == 4,
        r is Cmd <==> r.code() == 5,
        r is ConfigLong <==> r.code() == 6,
        c is FirmwareVersion <==> c.code() == 0x01,
        c is Profile <==> c.code() == 0x02,
        c is GetConfig <==> c.code() == 0x11,
        c is GetButtons <==> c.code() == 0x12,
        c is Debounce <==> c.code() == 0x1A,
        c is LongAngleSnappingAndLod <==> c.code() == 0x1B,
        c is GetConfig2 <==> c.code() == 0x21,
        c is GetButtons2 <==> c.code() == 0x22,
        c is Macro <==> c.code() == 0x30,
        c is GetConfig3 <==> c.code() == 0x31,
        c is GetButtons3 <==> c.code() == 0x32,
        c is Dfu <==> c.code() == 0x75,
        s is Pmw3360 <==> s.code() == 6,
        s is Pmw3212 <==> s.code() == 8,
        s is Pmw3327 <==> s.code() == 14,
        s is Pmw3389 <==> s.code() == 15,
        t is MouseButton <==> t.code() == 0x01,
        t is Keyboard <==> t.code() == 0x10,
        t is ModifierKey <==> t.code() == 0x11,
        t is Special <==> t.code() == 0x12,
        t is Disabled <==> t.code() == 0x20,
        t is Macro <==> t.code() == 0x40,
{
}

/// A command is six bytes: the report, the command and its two parameters.
pub proof fn command_layout(code: u8, a: u8, b: u8)
    ensures
        protocol::command(code, a, b) =~= seq![5u8, code, a, b, 0, 0],
{
}

/// The steps of a sensor are 100 apart; that of the PMW3389 counts from zero,
/// others from one. Each has its highest value.
pub proof fn sensor_steps(s: Sensor, raw: u8, dpi: u32)
    ensures
        s is Pmw3389 ==> s.dpi_of_raw(raw) == 100 * raw && s.top_dpi() == 16000,
        !(s is Pmw3389) ==> s.dpi_of_raw(raw) == 100 * (raw + 1),
        s is Pmw3360 ==> s.top_dpi() == 12000,
        s is Pmw3212 ==> s.top_dpi() == 7200,
        s is Pmw3327 ==> s.top_dpi() == 10200,
        s.raw_of_dpi(dpi) is None <==> dpi < 100 || s is Pmw3389 && dpi >= 25600 || !(s is Pmw3389)
            && dpi >= 25700,
        s.raw_of_dpi(dpi) matches Some(raw) ==> s.dpi_of_raw(raw) <= dpi < s.dpi_of_raw(raw) + 100,
{
}

/// The names of the sensors.
pub proof fn sensor_names(upper: Seq<char>)
    ensures
        upper == "PMW3360"@ <==> protocol::sensor_named(upper) == Some(Sensor::Pmw3360),
        upper == "PMW3212"@ <==> protocol::sensor_named(upper) == Some(Sensor::Pmw3212),
        upper == "PMW3327"@ <==> protocol::sensor_named(upper) == Some(Sensor::Pmw3327),
        upper == "PMW3389"@ <==> protocol::sensor_named(upper) == Some(Sensor::Pmw3389),
{
    reveal_strlit("PMW3360");
    reveal_strlit("PMW3212");
    reveal_strlit("PMW3327");
    reveal_strlit("PMW3389");
    assert("PMW3360"@[5] == '6' && "PMW3212"@[5] == '1' && "PMW3327"@[5] == '2' && "PMW3389"@[5]
        == '8');
}

/// What the codes of special actions stand for.
pub proof fn special_codes(code: u8)
    ensures
        button::special_of_hw(code) == if code == 0x01 {
            0x4000_0004u32
        } else if code == 0x02 {
            0x4000_0005
        } else if code == 0x03 {
            0x4000_0007
        } else if code == 0x04 {
            0x4000_0009
        } else if code == 0x05 {
            0x4000_000A
        } else if code == 0x06 {
            0x4000_000D
        } else if code == 0x07 {
            0x4000_000F
        } else if code == 0x08 {
            0x4000_0010
        } else if code == 0x09 {
            0x4000_0001
        } else if code == 0x0A {
            0x4000_0002
        } else if code == 0x0B {
            0x4000_0003
        } else if code == 0x0C {
            0x4000_000B
        } else if code == 0x0D {
            0x4000_000C
        } else if code == 0x0E {
            0x4000_0012
        } else if code == 0x0F {
            0x4000_0011
        } else if code == 0x10 {
            0x4000_0008
        } else {
            0x4000_0000
        },
        1 <= code <= 16 ==> button::hw_of_special(button::special_of_hw(code)) == code,
{
}

/// What the four bytes of a button stand for.
pub proof fn button_bytes_are_read(w: Seq<u8>)
    requires
        w.len() == 4,
    ensures
        ({
            let (action, value) = button::decoded(w);
            &&& action is Button <==> w[0] == 0x01
            &&& action is Key <==> w[0] == 0x10 || w[0] == 0x11
            &&& action is Special <==> w[0] == 0x12
            &&& action is Macro <==> w[0] == 0x40
            &&& !(action is Unknown)
            &&& w[0] == 0x01 && w[1] == 0x01 ==> value == 0x110
            &&& w[0] == 0x01 && w[1] == 0x02 ==> value == 0x111
            &&& w[0] == 0x01 && w[1] == 0x04 ==> value == 0x112
            &&& w[0] == 0x01 && w[1] == 0x08 ==> value == 0x113
            &&& w[0] == 0x01 && w[1] == 0x10 ==> value == 0x114
            &&& w[0] == 0x10 ==> value == w[1]
            &&& w[0] == 0x11 ==> value == 65536 * w[1] + w[2]
            &&& w[0] == 0x12 ==> value == button::special_of_hw(w[1])
            &&& w[0] == 0x40 ==> value == w[1]
            &&& action is NoAction ==> value == 0
        }),
{
}

/// The four bytes that are written for a button.
pub proof fn button_bytes_layout(action: ActionType, value: u32)
    ensures
        ({
            let w = button::encoded(action, value);
            &&& w.len() == 4 && w[3] == 0
            &&& action is Button ==> w[0] == 0x01
            &&& action is Button && 0x110 <= value <= 0x114 ==> button::decoded(w) == (
                action,
                value,
            )
            &&& action is Special ==> w[0] == 0x12 && (w[1] != 0 ==> button::special_of_hw(w[1])
                == value)
            &&& action is Key && value < 256 ==> w[0] == 0x10 && w[1] == value
            &&& action is Key && value > 0xFFFF ==> w[0] == 0x11 && w[1] == value / 65536 % 256
                && w[2] == value % 256
            &&& action is Macro && value < 256 ==> w[0] == 0x40 && w[1] == value
            &&& action is NoAction ==> w =~= seq![0x20u8, 0, 0, 0]
        }),
{
}

/// The buttons of a report stand in four bytes each, from byte 4 on.
pub proof fn button_report_is_read(p: ProfileModel, buf: Seq<u8>, n: nat, i: int)
    requires
        buf.len() == 520,
        0 <= i < n,
        i < 20,
        i < p.buttons.len(),
    ensures
        ({
            let b = button::with_buttons(p, buf, n).buttons[i];
            (b.action_type, b.mapping_value) == button::decoded(
                buf.subrange(4 + 4 * i, 8 + 4 * i),
            )
        }),
{
}

/// What settings of a device say: the resolutions, which of them are in use and
/// active, and the rate.
pub proof fn settings_are_read(
    s: Sensor,
    t: LedType,
    cfg: Seq<u8>,
    p: ProfileModel,
    i: int,
)
    requires
        cfg.len() >= 124,
        0 <= i < p.resolutions.len(),
        i < 8,
    ensures
        ({
            let q = config::loaded_profile(s, t, cfg, p);
            let r = q.resolutions[i];
            let (x, y) = (s.dpi_of_raw(cfg[7 + 2 * i]) as u32, s.dpi_of_raw(cfg[8 + 2 * i]) as u32);
            &&& cfg[4] / 8 % 2 == 0 ==> r.dpi == Dpi::Unified(x)
            &&& cfg[4] / 8 % 2 == 1 ==> r.dpi == (Dpi::Separate { x, y })
            &&& r.is_disabled <==> i >= cfg[6] / 16
            &&& r.is_active <==> cfg[23] == i
            &&& r.is_default <==> cfg[23] == i
            &&& q.report_rate == if cfg[72] == 1 {
                125int
            } else if cfg[72] == 2 {
                250
            } else if cfg[72] == 3 {
                500
            } else {
                1000
            }
            &&& q.report_rates =~= seq![125u32, 250, 500, 1000]
            &&& q.debounces =~= seq![4u32, 6, 8, 10, 12, 14, 16]
        }),
{
}

/// What settings of a device say of its LED: the effect, the color of one that
/// has one, the time and the brightness. Some devices have green and blue the
/// other way round.
pub proof fn led_is_read(t: LedType, cfg: Seq<u8>, l: LedModel)
    requires
        cfg.len() >= 124,
    ensures
        ({
            let r = config::loaded_led(t, cfg, l);
            let e = cfg[77];
            let swapped = t is Rbg;
            &&& r.mode is Solid <==> e == 2 || e == 6
            &&& r.mode is Breathing <==> e == 3 || e == 5 || e == 10
            &&& r.mode is Cycle <==> e == 1 || e == 4 || e == 9
            &&& r.mode is ColorWave <==> e == 7 || e == 8
            &&& r.mode is Off <==> e == 0 || e > 10
            &&& r.mode is Solid || r.mode is Breathing ==> {
                &&& r.color.red == cfg[78]
                &&& !swapped ==> r.color.green == cfg[79] && r.color.blue == cfg[80]
                &&& swapped ==> r.color.blue == cfg[79] && r.color.green == cfg[80]
            }
            &&& !(r.mode is Solid || r.mode is Breathing) ==> r.color == l.color
            &&& r.effect_duration == 100 * cfg[81]
            &&& r.brightness == cfg[83]
        }),
{
}

/// What is written of an LED: the effect of its mode, its color, its time in
/// tenths of a second and its brightness.
pub proof fn led_layout(t: LedType, cfg: Seq<u8>, l: LedModel)
    requires
        cfg.len() >= 124,
        l.color.red <= 255 && l.color.green <= 255 && l.color.blue <= 255,
    ensures
        ({
            let w = config::with_led(t, cfg, l);
            &&& w.len() == cfg.len()
            &&& w[77] == match l.mode {
                LedMode::Off => 0int,
                LedMode::Solid => 2,
                LedMode::Breathing => 10,
                LedMode::Cycle => 1,
                LedMode::ColorWave => 9,
                LedMode::Starlight => 8,
                LedMode::TriColor => 7,
            }
            &&& l.mode is Solid || l.mode is Breathing ==> {
                &&& w[78] == l.color.red
                &&& !(t is Rbg) ==> w[79] == l.color.green && w[80] == l.color.blue
                &&& t is Rbg ==> w[79] == l.color.blue && w[80] == l.color.green
            }
            &&& l.effect_duration < 25600 ==> w[81] == l.effect_duration / 100
            &&& l.effect_duration >= 25600 ==> w[81] == 255
            &&& l.brightness < 256 ==> w[83] == l.brightness
            &&& l.brightness >= 256 ==> w[83] == 255
            &&& w[82] == cfg[82] && w[72] == cfg[72]
        }),
{
}

/// What is written of the rate and of the active resolution, and that bytes that
/// stand for something else are left alone.
pub proof fn settings_layout(s: Sensor, t: LedType, cfg: Seq<u8>, p: ProfileModel, i: int, k: int)
    requires
        cfg.len() >= 124,
        0 <= i < p.resolutions.len() < 256,
        p.resolutions[i].is_active,
        forall|j: int| 0 <= j < i ==> !(#[trigger] p.resolutions[j]).is_active,
    ensures
        ({
            let w = config::with_profile(s, t, cfg, p);
            &&& w.len() == cfg.len()
            &&& w[23] == i
            &&& w[72] == if p.report_rate == 125 {
                1int
            } else if p.report_rate == 250 {
                2
            } else if p.report_rate == 500 {
                3
            } else {
                4
            }
            &&& 0 <= k < cfg.len() && k != 6 && !(7 <= k < 23) && k != 23 && k != 72 && !(77 <= k
                <= 81) && k != 83 ==> w[k] == cfg[k]
        }),
{
    let n = config::slots_written(p.resolutions);
    lemma_slots(s, cfg, p.resolutions, n);
    assert(config::first_active(p.resolutions, i));
    let c = choose|c: int| config::first_active(p.resolutions, c);
    assert(c == i);
}

proof fn lemma_slots(
    s: Sensor,
    cfg: Seq<u8>,
    resolutions: Seq<ResolutionModel>,
    n: nat,
)
    requires
        cfg.len() >= 124,
        n <= resolutions.len(),
        n <= 8,
    ensures
        ({
            let w = config::with_slots(s, cfg, resolutions, n);
            &&& w.len() == cfg.len()
            &&& forall|k: int| 0 <= k < cfg.len() && !(7 <= k < 7 + 2 * n) ==> #[trigger] w[k] == cfg[k]
        }),
    decreases n,
{
    if n > 0 {
        lemma_slots(s, cfg, resolutions, (n - 1) as nat);
    }
}

/// A macro stands in three bytes for each event, from byte 3 on, up to the first
/// zero.
pub proof fn macro_is_read(buf: Seq<u8>, i: int)
    requires
        buf.len() == 515,
        0 <= i < 168,
        forall|j: int| 0 <= j <= i ==> #[trigger] buf[3 + 3 * j] != 0,
    ensures
        button::macro_events(buf).len() > i,
        button::macro_events(buf)[i] == (buf[3 + 3 * i] as u32, buf[4 + 3 * i] as u32),
{
    lemma_macro_length(buf, 0, i);
}

proof fn lemma_macro_length(buf: Seq<u8>, k: int, i: int)
    requires
        buf.len() == 515,
        0 <= k <= i < 168,
        forall|j: int| 0 <= j <= i ==> #[trigger] buf[3 + 3 * j] != 0,
    ensures
        button::macro_length(buf, k) > i,
    decreases i - k,
{
    assert(buf[3 + 3 * k] != 0);
    if k < i {
        lemma_macro_length(buf, k + 1, i);
    } else {
        lemma_macro_length_grows(buf, k + 1);
    }
}

proof fn lemma_macro_length_grows(buf: Seq<u8>, k: int)
    ensures
        button::macro_length(buf, k) >= k,
    decreases 168 - k,
{
    if 0 <= k < 168 && 3 + 3 * k + 3 <= buf.len() && buf[3 + 3 * k] != 0 {
        lemma_macro_length_grows(buf, k + 1);
    }
}

/// The report of a macro names the profile and the button, and holds three bytes
/// for each event.
pub proof fn macro_report_layout(
    report: u8,
    profile: u8,
    b: u8,
    events: Seq<(u32, u32)>,
    i: int,
)
    requires
        0 <= i < events.len(),
        i < 168,
        events[i].0 < 256,
        events[i].1 < 256,
    ensures
        ({
            let w = button::macro_report(report, profile, b, events);
            &&& w.len() == 515
            &&& w[0] == report && w[1] == profile && w[2] == b
            &&& w[3 + 3 * i] == events[i].0
            &&& w[4 + 3 * i] == events[i].1
            &&& w[5 + 3 * i] == 0
        }),
{
}

/// What is asked of a device: the settings and the buttons of each profile, the
/// active profile and the macros.
pub proof fn query_layout(s: Loading)
    ensures
        s.phase matches SinowealthLoadPhase::Config { index } ==> index <= 2 ==> {
            let q = s.query()->0;
            q.cmd[0] == 5 && q.cmd[1] == 0x11 + 0x10 * index && q.size == 520 && q.report == if s.data.is_long {
                6int
            } else {
                4
            }
        },
        s.phase matches SinowealthLoadPhase::Buttons { index } ==> index <= 2 ==> {
            let q = s.query()->0;
            q.cmd[0] == 5 && q.cmd[1] == 0x12 + 0x10 * index && q.size == 520 && q.report == if s.data.is_long {
                6int
            } else {
                4
            }
        },
        s.phase is Active ==> {
            let q = s.query()->0;
            q.cmd[0] == 5 && q.cmd[1] == 2 && q.size == 6 && q.report == 5
        },
        s.phase matches SinowealthLoadPhase::Macro { profile, button } ==> profile < 256 && button
            < 256 ==> {
            let q = s.query()->0;
            q.cmd[0] == 5 && q.cmd[1] == 0x30 && q.cmd[2] == profile && q.cmd[3] == button && q.size
                == 515
        },
{
}

/// The reports that write a profile: a command, and what it announces.
pub proof fn profile_write_layout(d: DataModel, i: int, p: ProfileModel)
    requires
        0 <= i <= 2,
        d.configs[i].len() >= 124,
        d.buttons[i].len() > 0,
    ensures
        ({
            let c = driver::config_reports(d, i, p);
            let number: int = if d.is_long {
                6
            } else {
                4
            };
            &&& c.len() == 2
            &&& c[0] =~= seq![5u8, (0x11 + 0x10 * i) as u8, 0, 0, 0, 0]
            &&& c[1][0] == number
        }),
        ({
            let b = driver::button_reports(d, i, p);
            let number: int = if d.is_long {
                6
            } else {
                4
            };
            &&& b.len() >= 2
            &&& b[0] =~= seq![5u8, (0x12 + 0x10 * i) as u8, 0, 0, 0, 0]
            &&& b[1][0] == number
        }),
{
    let n = config::slots_written(p.resolutions);
    lemma_slots(d.sensor, d.configs[i], p.resolutions, n);
    assert(config::with_profile(d.sensor, d.led_type, d.configs[i], p).len() == d.configs[i].len());
    lemma_button_report(
        d.buttons[i],
        p.buttons,
        button::buttons_written(d.buttons[i], p.buttons, d.num_buttons as nat),
    );
}

proof fn lemma_button_report(
    buf: Seq<u8>,
    buttons: Seq<ButtonModel>,
    m: nat,
)
    ensures
        button::button_report(buf, buttons, m).len() == buf.len(),
    decreases m,
{
    if m > 0 {
        lemma_button_report(buf, buttons, (m - 1) as nat);
    }
}

/// A button is written in the four bytes that it is read from.
pub proof fn button_report_layout(
    buf: Seq<u8>,
    buttons: Seq<ButtonModel>,
    m: nat,
    i: int,
)
    requires
        0 <= i < m <= buttons.len(),
        m <= 20,
        4 + 4 * m <= buf.len(),
    ensures
        ({
            let w = button::button_report(buf, buttons, m);
            let b = button::encoded(buttons[i].action_type, buttons[i].mapping_value);
            &&& w.len() == buf.len()
            &&& w[4 + 4 * i] == b[0] && w[5 + 4 * i] == b[1] && w[6 + 4 * i] == b[2] && w[7 + 4 * i]
                == b[3]
        }),
    decreases m,
{
    lemma_button_report(buf, buttons, (m - 1) as nat);
    button_bytes_layout(buttons[m - 1].action_type, buttons[m - 1].mapping_value);
    if i < m - 1 {
        button_report_layout(buf, buttons, (m - 1) as nat, i);
    }
}

/// An item of a report descriptor is one byte, and the bytes that the lowest two
/// bits announce: none, one, two or four.
pub proof fn descriptor_items(prefix: u8)
    ensures
        prefix % 4 == 0 ==> protocol::item_size(prefix) == 1,
        prefix % 4 == 1 ==> protocol::item_size(prefix) == 2,
        prefix % 4 == 2 ==> protocol::item_size(prefix) == 3,
        prefix % 4 == 3 ==> protocol::item_size(prefix) == 5,
{
}

/// The last commands of a commit: the debounce time of the first profile, if it
/// has one, and the profile that is to be active.
pub proof fn closing_layout(profiles: Seq<ProfileModel>, i: int)
    requires
        0 <= i < profiles.len(),
        profiles[i].is_active,
        forall|j: int| 0 <= j < i ==> !(#[trigger] profiles[j]).is_active,
        profiles[i].index < 256,
        profiles[0].debounce < 256,
    ensures
        ({
            let c = driver::closing_commands(profiles);
            let active = seq![5u8, 2, profiles[i].index as u8, 0, 0, 0];
            &&& profiles[0].debounce >= 0 ==> c.len() == 2 && c[0] =~= seq![
                5u8,
                0x1A,
                profiles[0].debounce as u8,
                0,
                0,
                0,
            ] && c[1] =~= active
            &&& profiles[0].debounce < 0 ==> c.len() == 1 && c[0] =~= active
        }),
{
    assert(driver::first_active(profiles, i));
    let c = choose|c: int| driver::first_active(profiles, c);
    assert(c == i);
}

/// What is made of the first answers: the firmware version in bytes 2 and 3, six
/// buttons and one profile until the database says more.
pub proof fn probe_is_read(resp: Seq<u8>, is_long: bool, config: Seq<u8>)
    requires
        resp.len() == 6,
        config.len() == 520,
    ensures
        ({
            let d = driver::probed_data(resp, is_long, config);
            &&& d.firmware_version =~= seq![resp[2], resp[3]]
            &&& d.is_long == is_long && d.active_profile == 0
            &&& d.firmware_text == protocol::firmware_text(resp[2], resp[3])
            &&& d.num_buttons == 6 && d.num_profiles == 1
            &&& d.sensor is Pmw3360 && d.led_type is Absent
            &&& d.configs =~= seq![config] && d.buttons.len() == 0
            &&& d.config_size == 123 || d.config_size == 167
            &&& d.config_size == 123 <==> forall|k: int|
                124 <= k < 168 ==> #[trigger] config[k] == 0
        }),
{
}

/// The entry of the database for a firmware version is the first that names it,
/// whatever the case of its letters, and gives the sensor, the LED and how many
/// buttons and profiles there are.
pub proof fn entry_is_used(d: DataModel, devices: Seq<SinowealthDeviceModel>, i: int)
    requires
        0 <= i < devices.len(),
        text::same_ignoring_case(devices[i].firmware_version, d.firmware_text),
        forall|j: int|
            0 <= j < i ==> !text::same_ignoring_case(
                (#[trigger] devices[j]).firmware_version,
                d.firmware_text,
            ),
    ensures
        ({
            let r = driver::configured(d, devices);
            let e = devices[i];
            &&& r.num_buttons == e.buttons
            &&& e.profiles > 0 ==> r.num_profiles == e.profiles
            &&& e.profiles == 0 ==> r.num_profiles == 1
            &&& protocol::sensor_named(text::upper(e.sensor_type)) matches Some(s) ==> r.sensor == s
            &&& protocol::sensor_named(text::upper(e.sensor_type)) is None
                ==> r.sensor is Pmw3360
            &&& e.led_type is Absent <==> r.led_type is Absent
            &&& e.led_type is Rgb <==> r.led_type is Rgb
            &&& e.led_type is Rbg <==> r.led_type is Rbg
            &&& r.configs == d.configs && r.firmware_text == d.firmware_text
        }),
{
    lemma_entry(devices, d.firmware_text, 0, i);
}

proof fn lemma_entry(
    devices: Seq<SinowealthDeviceModel>,
    version: Seq<char>,
    k: int,
    i: int,
)
    requires
        0 <= k <= i < devices.len(),
        text::same_ignoring_case(devices[i].firmware_version, version),
        forall|j: int|
            0 <= j < i ==> !text::same_ignoring_case(
                (#[trigger] devices[j]).firmware_version,
                version,
            ),
    ensures
        driver::entry_for(devices, version, k) == Some(i),
    decreases i - k,
{
    if k < i {
        assert(!text::same_ignoring_case(devices[k].firmware_version, version));
        lemma_entry(devices, version, k + 1, i);
    }
}

/// The items of a report descriptor are passed one by one; the report for long
/// settings is named by 0x85 0x06.
pub proof fn descriptor_is_walked(d: Seq<u8>, at: int)
    requires
        0 <= at < d.len(),
    ensures
        d[at] == 0x85 && at + 1 < d.len() && d[at + 1] == 6 ==> protocol::names_long_report(d, at),
        d[at] == 0x85 && at + 1 < d.len() && d[at + 1] != 6 ==> protocol::names_long_report(d, at)
            == protocol::names_long_report(d, at + 2),
        d[at] % 4 == 0 ==> protocol::names_long_report(d, at) == protocol::names_long_report(
            d,
            at + 1,
        ),
        d[at] % 4 == 2 ==> protocol::names_long_report(d, at) == protocol::names_long_report(
            d,
            at + 3,
        ),
        d[at] % 4 == 3 ==> protocol::names_long_report(d, at) == protocol::names_long_report(
            d,
            at + 5,
        ),
        !protocol::names_long_report(d, d.len() as int),
{
}

/// A firmware version is a letter behind a `V` and two digits, or four digits.
pub proof fn firmware_texts(a: u8, b: u8)
    ensures
        ({
            let t = protocol::firmware_text(a, b);
            let letter = 65 <= a <= 90 || 97 <= a <= 122;
            &&& t.len() == 4
            &&& letter ==> t[0] == 'V' && t[1] as int == a && t.subrange(2, 4) == text::upper_hex2(
                b as int,
            )
            &&& !letter ==> t == text::upper_hex2(a as int) + text::upper_hex2(b as int)
        }),
{
    reveal_strlit("V");
    let t = protocol::firmware_text(a, b);
    assert(t.subrange(2, 4) =~= text::upper_hex2(b as int));
}

/// What becomes of an answer at each point of a reading: settings and buttons are
/// kept in the order in which they come, byte 2 of the answer for the active
/// profile is its number, and macros go to their buttons.
pub proof fn reading_steps(s: Loading, buf: Seq<u8>)
    requires
        s.consistent(),
    ensures
        ({
            let n = s.after(Some(buf));
            &&& s.phase is Config ==> n.data.configs == s.data.configs.push(buf) && n.data.buttons
                == s.data.buttons
            &&& s.phase is Buttons ==> n.data.buttons == s.data.buttons.push(buf) && n.data.configs
                == s.data.configs
            &&& s.phase is Active && buf[1] == 2 ==> n.data.active_profile == buf[2]
            &&& s.phase is Active && buf[1] != 2 ==> n.data.active_profile == s.data.active_profile
            &&& s.phase matches SinowealthLoadPhase::Macro { profile, button } ==> {
                &&& n.info.profiles[profile as int].buttons[button as int].macro_entries
                    == button::macro_events(buf)
                &&& n.info.profiles[profile as int].report_rate
                    == s.info.profiles[profile as int].report_rate
            }
        }),
        s.phase is Config || s.phase is Buttons ==> s.after(None).phase is Failed,
        s.phase is Active || s.phase is Macro ==> !(s.after(None).phase is Failed),
{
    if let SinowealthLoadPhase::Macro { profile, button } = s.phase {
        lemma_macro_phase(s.info.profiles, profile as int, button + 1);
    }
    lemma_macro_phase(s.build().info.profiles, 0, 0);
}

proof fn lemma_macro_phase(profiles: Seq<ProfileModel>, p: int, b: int)
    ensures
        !(driver::enter_macro(profiles, p, b) is Failed),
    decreases profiles.len() - p, profiles[p].buttons.len() - b,
{
    if 0 <= p < profiles.len() && b >= 0 {
        if b >= profiles[p].buttons.len() {
            lemma_macro_phase(profiles, p + 1, 0);
        } else if !(profiles[p].buttons[b].action_type is Macro) {
            lemma_macro_phase(profiles, p, b + 1);
        }
    }
}

/// The settings of all profiles are read, then the buttons of all, then which one
/// is active.
pub proof fn reading_order(d: DataModel, i: int)
    requires
        0 <= i <= d.num_profiles,
        1 <= d.num_profiles <= 3,
    ensures
        i < d.num_profiles ==> driver::enter_config(d, i) == (SinowealthLoadPhase::Config {
            index: i as usize,
        }),
        i == d.num_profiles ==> driver::enter_config(d, i) == (SinowealthLoadPhase::Buttons {
            index: 0,
        }),
        i < d.num_profiles ==> driver::enter_buttons(d, i) == (SinowealthLoadPhase::Buttons {
            index: i as usize,
        }),
        i == d.num_profiles ==> driver::enter_buttons(d, i) is Active,
{
}

/// A profile before anything was read of it.
pub proof fn profile_before_reading(d: DataModel, i: int, j: int)
    requires
        0 <= i < 256,
        0 <= j <= 255,
        0 <= d.num_buttons,
    ensures
        ({
            let p = driver::blank_profile(d, i);
            &&& p.index == i
            &&& p.is_active <==> i == d.active_profile
            &&& p.is_enabled && !p.is_dirty && p.report_rate == 1000
            &&& p.resolutions.len() == 8 && p.buttons.len() == d.num_buttons
            &&& j < 8 ==> p.resolutions[j].index == j && p.resolutions[j].dpi == Dpi::Unified(800)
                && (p.resolutions[j].is_active <==> j == 0)
            &&& j < 8 ==> p.resolutions[j].dpi_list[0] == 100 && p.resolutions[j].dpi_list.last()
                == d.sensor.top_dpi()
            &&& j < p.buttons.len() ==> p.buttons[j].index == j && p.buttons[j].action_type is Button
                && p.buttons[j].mapping_value == 0x110 + j
            &&& p.leds.len() == if d.led_type is Absent {
                0int
            } else {
                1
            }
        }),
{
}

/// The macros of a profile are written for the buttons that have one: a command
/// that names the profile and the button, and the macro.
pub proof fn macros_are_written(d: DataModel, i: int, buttons: Seq<ButtonModel>, n: nat)
    requires
        0 < n <= buttons.len(),
        0 <= i <= 2,
        n <= 256,
    ensures
        ({
            let earlier = driver::macro_reports(d, i, buttons, (n - 1) as nat);
            let r = driver::macro_reports(d, i, buttons, n);
            let b = buttons[n - 1];
            let number = if d.is_long {
                6u8
            } else {
                4
            };
            if b.action_type is Macro && b.macro_entries.len() > 0 {
                &&& r.len() == earlier.len() + 2
                &&& r.subrange(0, earlier.len() as int) == earlier
                &&& r[r.len() - 2] =~= seq![5u8, 0x30, i as u8, (n - 1) as u8, 0, 0]
                &&& r.last() == button::macro_report(number, i as u8, (n - 1) as u8, b.macro_entries)
            } else {
                r == earlier
            }
        }),
        driver::macro_reports(d, i, buttons, 0).len() == 0,
{
    let earlier = driver::macro_reports(d, i, buttons, (n - 1) as nat);
    let r = driver::macro_reports(d, i, buttons, n);
    assert(r.len() >= earlier.len());
    assert(r.subrange(0, earlier.len() as int) =~= earlier);
}

/// A commit writes the settings and then the buttons of each profile that has
/// changed, and passes over others.
pub proof fn commit_steps(s: Committing, i: int)
    requires
        0 <= i < s.info.profiles.len() <= usize::MAX,
    ensures
        !s.info.profiles[i].is_dirty ==> s.at_profile(i) == s.at_profile(i + 1),
        s.info.profiles[i].is_dirty && i <= 2 ==> {
            let n = s.at_profile(i);
            &&& n.phase == (SinowealthCommitPhase::Config { profile: i as usize })
            &&& n.reports == driver::config_reports(s.data, i, s.info.profiles[i])
            &&& n.after(true).phase == (SinowealthCommitPhase::Buttons { profile: i as usize })
            &&& n.after(false).phase is Failed
        },
        s.info.profiles[i].is_dirty && i > 2 ==> s.at_profile(i).phase is Failed,
        s.at_profile(s.info.profiles.len() as int).phase is Finish,
        s.phase is Finish ==> s.after(true).phase is Done && s.after(false).phase is Failed,
{
}

/// What is sent of a profile is kept as what the device holds.
pub proof fn written_settings_are_kept(s: Committing, i: int)
    requires
        0 <= i <= 2,
        i < s.info.profiles.len(),
        i < s.data.configs.len(),
        i < s.data.buttons.len(),
        s.data.configs[i].len() >= 124,
        s.data.buttons[i].len() > 0,
    ensures
        s.at_config(i).data.configs[i] == s.at_config(i).reports[1],
        s.at_buttons(i).data.buttons[i] == s.at_buttons(i).reports[1],
        s.at_config(i).data.buttons == s.data.buttons,
        s.at_buttons(i).data.configs == s.data.configs,
{
}

/// A device with more than three profiles cannot be read, and resolutions beyond
/// the eighth are left as they are.
pub proof fn limits_of_a_device(d: DataModel, t: LedType, p: ProfileModel, cfg: Seq<u8>, i: int)
    requires
        d.num_profiles > 3,
        cfg.len() >= 124,
        8 <= i < p.resolutions.len(),
    ensures
        driver::enter_config(d, 3) is Failed,
        driver::enter_buttons(d, 3) is Failed,
        driver::enter_config(d, 2) == (SinowealthLoadPhase::Config { index: 2 }),
        config::loaded_profile(d.sensor, t, cfg, p).resolutions[i].dpi == p.resolutions[i].dpi,
        config::loaded_profile(d.sensor, t, cfg, p).resolutions[i].is_disabled
            == p.resolutions[i].is_disabled,
{
}

} // verus!
