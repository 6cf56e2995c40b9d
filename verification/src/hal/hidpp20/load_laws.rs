//! What is asked of a device, and what is made of its answers, byte by byte.

use crate::engine::device::{ActionType, Dpi, ProfileModel};
use crate::hal::hidpp20::apply;
use crate::hal::hidpp20::binding;
use crate::hal::hidpp20::eeprom;
use crate::hal::hidpp20::eeprom::EepromModel;
use crate::hal::hidpp20::error::HidppDriverError;
use crate::hal::hidpp20::feature;
use crate::hal::hidpp20::feature::{FeatureMap, ProbeIndexResult, Reply};
use crate::hal::hidpp20::led;
use crate::hal::hidpp20::live::{LivePhase, LiveWriting};
use crate::hal::hidpp20::load::{ActionModel, LoadPhase, Loading};
use crate::hal::hidpp20::sector::{SectorWriteModel, SectorWritePhase};
use crate::hal::hidpp20::sensor;
use crate::hal::hidpp20::sensor::OnboardModel;
use vstd::prelude::*;

verus! {

/// A report answers a request if it repeats the device, the feature and the
/// function, and says that it has failed if it names them behind an error number.
pub proof fn replies_are_told_apart(buf: Seq<u8>, device: u8, feature: u8, function: u8)
    requires
        buf.len() == 20,
        buf[0] == 0x11,
        function < 16,
        feature != 0xFF,
    ensures
        ({
            let r = feature::reply_to(buf, device, feature, function);
            let byte = 16 * function + 4;
            &&& r is Answer <==> buf[1] == device && buf[2] == feature && buf[3] == byte
            &&& r is Failure <==> buf[1] == device && buf[2] == 0xFF && buf[3] == feature && buf[4]
                == byte
            &&& r matches Reply::Failure(code) ==> code == buf[5]
            &&& r matches Reply::Answer(p) ==> p =~= buf.subrange(4, 20)
        }),
{
}

/// A short report says with 0x8F that a request has failed, and an answer of it
/// has three parameters, filled up with zeros.
pub proof fn short_replies(buf: Seq<u8>, device: u8, feature: u8, function: u8)
    requires
        buf.len() == 7,
        buf[0] == 0x10,
        function < 16,
        feature != 0x8F,
    ensures
        ({
            let r = feature::reply_to(buf, device, feature, function);
            let byte = 16 * function + 4;
            &&& r is Answer <==> buf[1] == device && buf[2] == feature && buf[3] == byte
            &&& r is Failure <==> buf[1] == device && buf[2] == 0x8F && buf[3] == feature && buf[4]
                == byte
            &&& r matches Reply::Failure(code) ==> code == buf[5]
            &&& r matches Reply::Answer(p) ==> p.len() == 16 && p[0] == buf[4] && p[1] == buf[5] && p[2]
                == buf[6] && p[3] == 0 && p[15] == 0
        }),
{
}

/// A device gives its version in a long report, and one that is asleep is told of
/// by error 9 in a short one.
pub proof fn probe_answers(buf: Seq<u8>, device: u8)
    requires
        buf.len() == 20 && buf[0] == 0x11 || buf.len() == 7 && buf[0] == 0x10,
        buf[1] == device,
    ensures
        ({
            let r = feature::probe_reply(buf, device);
            let failed = buf[2] == (if buf.len() == 7 {
                0x8Fint
            } else {
                0xFF
            }) && buf[3] == 0 && buf[4] == 0x14;
            &&& buf.len() == 20 && buf[2] == 0 && buf[3] == 0x14 ==> r == Some(
                ProbeIndexResult::Version(buf[4], buf[5]),
            )
            &&& failed && buf.len() == 7 && buf[5] == 9 ==> r == Some(ProbeIndexResult::Asleep)
            &&& failed && !(buf.len() == 7 && buf[5] == 9) ==> r == Some(
                ProbeIndexResult::NoResponse,
            )
            &&& !failed && !(buf[2] == 0 && buf[3] == 0x14) ==> r is None
        }),
{
}

/// A feature that a device has is at another place than zero.
pub proof fn lookups(params: Seq<u8>, code: u8)
    requires
        params.len() == 16,
    ensures
        params[0] > 0 ==> feature::lookup_result(Reply::Answer(params)) == Some(params[0]),
        params[0] == 0 ==> feature::lookup_result(Reply::Answer(params)) is None,
        feature::lookup_result(Reply::Failure(code)) is None,
        feature::lookup_result(Reply::Unrelated) is None,
{
}

/// The numbers of the features.
pub proof fn feature_numbers(f: FeatureMap)
    ensures
        f.index_of(0x1B04) == f.special_keys,
        f.index_of(0x2201) == f.adjustable_dpi,
        f.index_of(0x8060) == f.report_rate,
        f.index_of(0x8070) == f.color_led_effects,
        f.index_of(0x8071) == f.rgb_effects,
        f.index_of(0x8100) == f.onboard_profiles,
{
}

/// The description of the memory of a device.
pub proof fn descriptor_is_read(reply: Seq<u8>)
    requires
        reply.len() == 16,
    ensures
        ({
            let d = OnboardModel::of_reply(reply);
            &&& d.profile_count == reply[3]
            &&& d.profile_count_oob == reply[4]
            &&& d.button_count == reply[5]
            &&& d.sector_size == 256 * reply[7] + reply[8]
        }),
{
}

/// What a sector of a profile says: the interval of the rate in byte 0, the
/// default resolution in byte 1, five resolutions from byte 3 on with the least
/// significant byte first, buttons of four bytes from byte 32 on and LEDs of
/// eleven from byte 208 on.
pub proof fn sector_is_read(
    s: Seq<u8>,
    count: int,
    p: ProfileModel,
    enabled: bool,
    i: int,
    b: int,
    l: int,
)
    requires
        s.len() >= 230,
        0 <= count <= 16,
        0 <= i < 5,
        0 <= b < count,
        b < p.buttons.len(),
        0 <= l < 2,
    ensures
        ({
            let r = apply::with_sector(p, EepromModel::read(s, count), enabled);
            let raw = s[3 + 2 * i] + 256 * s[4 + 2 * i];
            let used = raw != 0 && raw != 0xFFFF;
            let x = r.resolutions[i];
            &&& r.is_enabled == enabled && r.index == p.index && r.is_active == p.is_active
            &&& s[0] > 0 ==> r.report_rate == 1000int / s[0] as int
            &&& s[0] == 0 ==> r.report_rate == p.report_rate
            &&& r.resolutions.len() == 5 && r.buttons.len() == p.buttons.len() && r.leds.len() == 2
            &&& x.index == i && x.is_disabled == !used
            &&& used ==> x.dpi == Dpi::Unified(raw as u32)
            &&& !used ==> x.dpi == Dpi::Unified(0)
            &&& x.is_active <==> used && s[1] == i
            &&& x.is_default <==> used && s[1] == i
            &&& r.buttons[b].action_type == binding::action_of_wire(
                s.subrange(32 + 4 * b, 36 + 4 * b),
            )
            &&& r.buttons[b].mapping_value == binding::mapping_of_wire(
                s.subrange(32 + 4 * b, 36 + 4 * b),
            )
            &&& r.leds[l] == led::led_of_bytes(s.subrange(208 + 11 * l, 219 + 11 * l), l)
        }),
{
}

/// A sector whose check sum, in its last two bytes, is right is taken.
pub proof fn sector_check_sum(s: Seq<u8>)
    requires
        s.len() >= 2,
    ensures
        eeprom::stored_crc(s) == 256 * s[s.len() - 2] + s[s.len() - 1],
        eeprom::body_crc(s) == crate::hal::hidpp::crc_ccitt(s.subrange(0, s.len() - 2)),
{
}

/// The directory has four bytes for each profile: its sector, the most significant
/// byte first, and whether it is enabled. It ends with 0xFFFF.
pub proof fn directory_is_read(root: Seq<u8>, count: nat, i: int)
    requires
        0 <= i < count,
        4 * i + 4 <= root.len(),
        forall|j: int|
            0 <= j <= i ==> !(#[trigger] root[4 * j] == 0xFF && root[4 * j + 1] == 0xFF),
    ensures
        apply::directory_addresses(root, count)[i] == 256 * root[4 * i] + root[4 * i + 1],
        apply::directory_enabled(root, count)[i] == (root[4 * i + 2] != 0),
{
    assert forall|j: int| 0 <= j <= i implies #[trigger] apply::directory_entry(root, j)
        != 0xFFFF by {
        assert(!(root[4 * j] == 0xFF && root[4 * j + 1] == 0xFF));
    }
    assert(apply::in_directory(root, i));
}

/// Behind the end of a directory there is no profile.
pub proof fn directory_ends(root: Seq<u8>, count: nat, e: int, i: int)
    requires
        0 <= e <= i < count,
        4 * e + 4 <= root.len() ==> root[4 * e] == 0xFF && root[4 * e + 1] == 0xFF,
    ensures
        apply::directory_addresses(root, count)[i] == 0,
        !apply::directory_enabled(root, count)[i],
{
    assert(apply::directory_entry(root, e) == 0xFFFF);
}

/// The factory copies of profiles are in the sectors from 0x0101 on, and a profile
/// without one has that of the first.
pub proof fn factory_sectors(i: int, n: int)
    requires
        0 <= i < 5,
        0 <= n < 256,
    ensures
        i < n ==> apply::rom_address(i, n) == 0x0101 + i,
        i >= n ==> apply::rom_address(i, n) == 0x0101,
{
}

/// Whether an action asks a function of a feature, with a parameter or none.
pub open spec fn asks(a: ActionModel, feature: Option<u8>, function: int, params: Seq<u8>) -> bool {
    a matches ActionModel::Ask(q) && Some(q.feature) == feature && q.function == function && q.params
        =~= params && !q.short
}

/// What a reading asks for at each point.
pub proof fn reading_requests(s: Loading)
    requires
        s.consistent(),
    ensures
        ({
            let f = s.driver.features;
            let a = s.action();
            let none = Seq::<u8>::empty();
            &&& s.load.phase is Descriptor ==> asks(a, f.onboard_profiles, 0, none)
            &&& s.load.phase is Keys || s.load.phase is HostKeys ==> asks(a, f.special_keys, 0, none)
            &&& s.load.phase is Mode ==> asks(a, f.onboard_profiles, 2, none)
            &&& s.load.phase is SetMode ==> asks(a, f.onboard_profiles, 1, seq![1u8])
            &&& s.load.phase is CurrentProfile ==> asks(a, f.onboard_profiles, 4, none)
            &&& s.load.phase is CurrentDpi ==> asks(a, f.onboard_profiles, 11, none)
            &&& s.load.phase is DpiRange || s.load.phase is LiveDpiList ==> asks(
                a,
                f.adjustable_dpi,
                1,
                seq![0u8],
            )
            &&& s.load.phase is LiveDpi ==> asks(a, f.adjustable_dpi, 2, seq![0u8])
            &&& s.load.phase is RateList || s.load.phase is LiveRateList ==> asks(
                a,
                f.report_rate,
                0,
                none,
            )
            &&& s.load.phase is LiveRate ==> asks(a, f.report_rate, 1, none)
            &&& s.load.phase matches LoadPhase::LiveLed(p, l) ==> asks(
                a,
                f.color_led_effects,
                14,
                seq![s.info.profiles[p as int].leds[l as int].index as u8],
            )
            &&& s.load.phase is Root ==> (a matches ActionModel::ReadSector { feature, sector, size }
                && Some(feature) == f.onboard_profiles && sector == 0 && size
                == s.driver.onboard->0.sector_size)
            &&& s.load.phase matches LoadPhase::User(i) ==> (a matches ActionModel::ReadSector {
                feature,
                sector,
                size,
            } && sector == s.load.addrs[i as int])
            &&& s.load.phase matches LoadPhase::Rom(i) ==> (a matches ActionModel::ReadSector {
                feature,
                sector,
                size,
            } && (i < s.driver.onboard->0.profile_count_oob ==> sector == 0x0101 + i))
            &&& s.load.phase is Finished || s.load.phase is Failed <==> a is Stop
        }),
{
}

/// How many profiles a device has: what it says, but at least one and at most five.
pub proof fn profile_counts(s: Loading, r: [u8; 16])
    requires
        s.load.phase is Descriptor,
        s.driver.features.special_keys is None,
        r[5] > 0,
    ensures
        ({
            let n = s.after_reply(Ok(r));
            &&& n.load.phase is Mode
            &&& n.load.button_count == r[5]
            &&& r[3] == 0 ==> n.load.profile_count == 1
            &&& 1 <= r[3] <= 5 ==> n.load.profile_count == r[3]
            &&& r[3] > 5 ==> n.load.profile_count == 5
            &&& n.driver.onboard == Some(OnboardModel::of_reply(r@))
        }),
{
}

/// What becomes of the answers on the way to the sectors and after them: a device
/// that is not in onboard mode is put there, the active profile and resolution are
/// marked, and the capabilities end the reading.
pub proof fn reading_steps(s: Loading, r: [u8; 16], e: HidppDriverError)
    requires
        s.consistent(),
    ensures
        s.load.phase is Descriptor ==> s.after_reply(Err(e)).load.phase is Failed,
        s.load.phase is Mode ==> (s.after_reply(Ok(r)).load.phase is SetMode <==> r[0] != 1),
        s.load.phase is Mode && r[0] == 1 ==> s.after_reply(Ok(r)).load.phase is Root,
        s.load.phase is Mode ==> s.after_reply(Err(e)).load.phase is Root,
        s.load.phase is SetMode ==> s.after_reply(Ok(r)).load.phase is Root,
        s.load.phase is CurrentProfile && s.info.profiles.len() > 0 ==> {
            let n = s.after_reply(Ok(r));
            &&& n.load.phase is CurrentDpi
            &&& r[1] > 0 ==> n.info.profiles == apply::with_active_index(
                s.info.profiles,
                (r[1] - 1) as u32,
            )
            &&& r[1] == 0 ==> n.info.profiles == apply::with_active_index(s.info.profiles, 0)
        },
        s.load.phase is DpiRange && s.driver.features.report_rate is Some ==> {
            let n = s.after_reply(Ok(r));
            &&& n.load.phase is RateList
            &&& sensor::dpi_list_of(r@.skip(1)).len() > 0 ==> n.load.dpi_range == Some(
                sensor::dpi_list_of(r@.skip(1)),
            )
            &&& sensor::dpi_list_of(r@.skip(1)).len() == 0 ==> n.load.dpi_range is None
        },
        s.load.phase is RateList ==> s.after_reply(Ok(r)).load.phase is Finished
            && s.after_reply(Err(e)).load.phase is Finished,
{
}

/// What is made of the state of a device without memory: its DPI value, its rates
/// and its rate.
pub proof fn live_values_are_read(s: Loading, r: [u8; 16], p: usize)
    requires
        s.consistent(),
        p < s.info.profiles.len(),
    ensures
        s.load.phase == LoadPhase::LiveDpiList(p) ==> s.after_reply(Ok(r)).load.phase
            == LoadPhase::LiveDpi(p) && s.after_reply(Ok(r)).load.list_reply == r@,
        s.load.phase == LoadPhase::LiveRateList(p) ==> s.after_reply(Ok(r)).load.phase
            == LoadPhase::LiveRate(p) && s.after_reply(Ok(r)).info.profiles[p as int].report_rates
            == sensor::rates_of_bitmap(r[0]),
        s.load.phase == LoadPhase::LiveRate(p) && r[0] > 0 ==> {
            let q = s.after_reply(Ok(r));
            &&& q.info.profiles[p as int].report_rate == 1000int / r[0] as int
            &&& q.driver.cached_report_rate_hz == 1000int / r[0] as int
        },
        s.load.phase == LoadPhase::LiveRate(p) && r[0] == 0 ==> s.after_reply(
            Ok(r),
        ).info.profiles[p as int].report_rate == s.info.profiles[p as int].report_rate,
        s.load.phase == LoadPhase::LiveDpi(p) ==> s.after_reply(Ok(r)).info.profiles[p as int]
            == apply::with_sensor_state(
            s.info.profiles[p as int],
            sensor::dpi_list_of(s.load.list_reply.skip(1)),
            (256 * r[1] + r[2]) as u16,
        ),
{
}

/// The DPI value in use is that of the active resolution, and every resolution has
/// the list of values, if there is one.
pub proof fn sensor_state_is_shown(p: ProfileModel, list: Seq<u32>, v: u16, i: int)
    requires
        0 <= i < p.resolutions.len(),
    ensures
        ({
            let x = p.resolutions[i];
            let r = apply::with_sensor_state(p, list, v).resolutions[i];
            &&& x.is_active ==> r.dpi == Dpi::Unified(v as u32)
            &&& !x.is_active ==> r.dpi == x.dpi
            &&& list.len() > 0 ==> r.dpi_list == list
            &&& list.len() == 0 ==> r.dpi_list == x.dpi_list
            &&& r.is_active == x.is_active && r.index == x.index
        }),
{
}

/// A sector that cannot be read, or that is damaged, is replaced by the copy of
/// the factory; one that is damaged is to be repaired.
pub proof fn damaged_sectors(s: Loading, data: Vec<u8>, e: HidppDriverError, i: usize)
    requires
        s.consistent(),
        s.load.phase == LoadPhase::User(i),
        data@.len() >= 2,
    ensures
        s.after_sector(Err(e)).load.phase == LoadPhase::Rom(i),
        s.after_sector(Err(e)).driver.needs_eeprom_repair == s.driver.needs_eeprom_repair,
        eeprom::stored_crc(data@) != eeprom::body_crc(data@) ==> s.after_sector(Ok(data)).load.phase
            == LoadPhase::Rom(i) && s.after_sector(Ok(data)).driver.needs_eeprom_repair,
        eeprom::stored_crc(data@) == eeprom::body_crc(data@) && data@.len() >= 230 ==> {
            let n = s.after_sector(Ok(data));
            &&& n.driver.needs_eeprom_repair == s.driver.needs_eeprom_repair
            &&& n.info.profiles[i as int] == apply::with_sector(
                s.info.profiles[i as int],
                EepromModel::read(data@, s.load.button_count as int),
                s.load.enabled[i as int],
            )
            &&& i + 1 == s.load.profile_count ==> n.load.phase is CurrentProfile
        },
{
}

/// A live write sets the DPI value, the rate and the LEDs, in this order.
pub proof fn live_order(s: LiveWriting, k: usize)
    requires
        s.consistent(),
    ensures
        s.phase is Dpi && (s.driver.rate_write(s.profile) matches Ok(q) && q is Some) ==> s.after(
            Ok(()),
        ).phase is Rate,
        s.phase is Rate && s.profile.leds.len() > 0 && s.driver.led_write(s.profile.leds[0]) is Ok
            ==> s.after(Ok(())).phase == LivePhase::Led(0),
        s.phase is Rate && s.profile.leds.len() == 0 ==> s.after(Ok(())).phase is Done,
        s.phase == LivePhase::Led(k) && k + 1 < s.profile.leds.len() && s.driver.led_write(
            s.profile.leds[k + 1],
        ) is Ok ==> s.after(Ok(())).phase == LivePhase::Led((k + 1) as usize),
        s.phase == LivePhase::Led(k) && k + 1 == s.profile.leds.len() ==> s.after(Ok(())).phase is Done,
{
}

/// A list of DPI values can hold a range: two values and a step between them, with
/// 0xE000 added to it.
pub proof fn dpi_range_is_read(lo: u16, step: u16, hi: u16)
    requires
        lo < 0xE000,
        0 < step < 0x2000,
        lo <= hi < 0xE000,
    ensures
        sensor::expand_entries(seq![lo, (0xE000 + step) as u16, hi], 0, Seq::empty())
            == crate::engine::device::stepped_range(lo as u32, hi as u32, step as u32),
{
    let e = seq![lo, (0xE000 + step) as u16, hi];
    reveal_with_fuel(sensor::expand_entries, 4);
    let first = Seq::<u32>::empty().push(lo as u32);
    assert(first.drop_last() =~= Seq::empty());
    let r = crate::engine::device::stepped_range(lo as u32, hi as u32, step as u32);
    assert(Seq::<u32>::empty() + r =~= r);
    assert(sensor::expand_entries(e, 1, first) == sensor::expand_entries(e, 3, first.drop_last() + r));
}

/// A request may succeed if it is repeated where the device was busy, which is
/// error 8, or did not answer in time.
pub proof fn passing_errors(e: HidppDriverError)
    ensures
        e is DeviceTimeout ==> e.transient(),
        e matches HidppDriverError::ProtocolError { code, .. } ==> (e.transient() <==> code == 8),
        e is UnsupportedFeature ==> !e.transient(),
{
}

/// What the four bytes of a button stand for.
pub proof fn button_bytes_are_read(w: Seq<u8>)
    requires
        w.len() == 4,
    ensures
        ({
            let a = binding::action_of_wire(w);
            let v = binding::mapping_of_wire(w);
            let hid = w[0] == 0x80;
            &&& a is Macro <==> w[0] == 0
            &&& a is Button <==> hid && w[1] == 1
            &&& a is Key <==> hid && w[1] == 2
            &&& a is Special <==> hid && w[1] == 3 || w[0] == 0x90
            &&& a is NoAction <==> w[0] == 0xFF
            &&& w[0] == 0x90 ==> v == binding::special_of_raw(w[2])
            &&& a is Macro || a is Key || hid && w[1] == 3 ==> v == w[2] + 256 * w[3]
            &&& a is Button && w[2] == 0 && w[3] == 1 ==> v == 1
        }),
{
    if w[2] == 0 && w[3] == 1 {
        reveal_with_fuel(crate::bytes::lowest_bit, 2);
    }
}

/// Which actions can be bound: sixteen buttons, the special actions that have a
/// number, keys and macros of two bytes.
pub proof fn bindable_actions(a: ActionType, v: u32)
    ensures
        a is Button ==> (binding::bindable(a, v) <==> 1 <= v <= 16),
        a is Special ==> (binding::bindable(a, v) <==> binding::raw_of_special(v) != 0),
        a is Key || a is Macro ==> (binding::bindable(a, v) <==> v <= 0xFFFF),
        a is NoAction || a is Unknown ==> !binding::bindable(a, v),
{
}

/// How many buttons a device has: what its memory says, or else its special keys,
/// or else what the database says.
pub proof fn button_counts(s: Loading, r: [u8; 16])
    requires
        s.consistent(),
        s.load.phase is Keys,
        s.driver.onboard->0.button_count == 0,
        s.info.profiles.len() > 0,
        s.info.profiles[0].buttons.len() <= usize::MAX,
    ensures
        ({
            let n = s.after_reply(Ok(r));
            let known = s.info.profiles[0].buttons.len();
            &&& r[0] > 0 ==> n.load.phase is Mode && n.load.button_count == r[0]
            &&& r[0] == 0 && known > 0 ==> n.load.phase is Mode && n.load.button_count == known
            &&& r[0] == 0 && known == 0 ==> n.load.phase is Failed
        }),
{
}

/// A write that failed begins again with its first request after a pause.
pub proof fn writes_begin_again(m: SectorWriteModel, ms: u64)
    requires
        m.phase == SectorWritePhase::Pause(ms),
    ensures
        m.rested().phase == SectorWritePhase::Send(0),
        m.rested().requests == m.requests,
        m.rested().attempt == m.attempt,
{
}

} // verus!
