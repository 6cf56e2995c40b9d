//! Requests to registers, and what the answers mean.

use crate::bytes;
use crate::hal::hidpp;
use crate::hal::hidpp::HidppReport;
use crate::hal::hidpp10::types::{
    BatteryChargeState, BatteryLevel, BatteryMileage, BatteryStatusInfo, FirmwareInfo, LedStatus,
    PairingInfo,
};
use crate::text;
use vstd::prelude::*;

verus! {

pub const REG_HIDPP_NOTIFICATIONS: u8 = 0x00;

pub const REG_INDIVIDUAL_FEATURES: u8 = 0x01;

pub const REG_BATTERY_STATUS: u8 = 0x07;

pub const REG_BATTERY_MILEAGE: u8 = 0x0D;

pub const REG_CURRENT_PROFILE: u8 = 0x0F;

pub const REG_LED_STATUS: u8 = 0x51;

pub const REG_LED_INTENSITY: u8 = 0x54;

pub const REG_LED_COLOR: u8 = 0x57;

pub const REG_OPTICAL_SENSOR: u8 = 0x61;

pub const REG_CURRENT_RESOLUTION: u8 = 0x63;

pub const REG_USB_REFRESH_RATE: u8 = 0x64;

pub const REG_MEMORY_MANAGEMENT: u8 = 0xA0;

pub const REG_READ_MEMORY: u8 = 0xA2;

pub const REG_DEVICE_CONNECTION: u8 = 0xB2;

pub const REG_PAIRING_INFORMATION: u8 = 0xB5;

pub const REG_FIRMWARE_INFORMATION: u8 = 0xF1;

pub const SUB_ID_SET_REGISTER: u8 = 0x80;

pub const SUB_ID_GET_REGISTER: u8 = 0x81;

pub const SUB_ID_SET_LONG_REGISTER: u8 = 0x82;

pub const SUB_ID_GET_LONG_REGISTER: u8 = 0x83;

/// The sub-id of the notice that a part of a payload has arrived.
pub const HOT_NOTIFICATION: u8 = 0x50;

/// The index of the receiver itself.
pub const HIDPP_RECEIVER_IDX: u8 = 0xFF;

pub const PAIRING_INFO_DEVICE: u8 = 0x20;

pub const PAIRING_INFO_EXTENDED: u8 = 0x30;

pub const PAIRING_INFO_DEVICE_NAME: u8 = 0x40;

pub const CONNECT_OPEN_LOCK: u8 = 1;

pub const CONNECT_CLOSE_LOCK: u8 = 2;

pub const CONNECT_DISCONNECT: u8 = 3;

pub const FW_INFO_NAME_AND_VERSION: u8 = 0x01;

pub const FW_INFO_BUILD_NUMBER: u8 = 0x02;

/// Which report answers a request.
#[derive(Debug, Clone, Copy, PartialEq, Eq, Structural)]
pub enum ReplyKind {
    Short { device: u8, sub_id: u8, register: u8 },
    Long { device: u8, sub_id: u8, register: u8 },
    /// The notice that part `id` of a payload has arrived.
    Notice { device: u8, id: u8 },
}

/// A request, and which report answers it.
#[derive(Debug)]
pub struct Hidpp10Request {
    pub wire: Vec<u8>,
    pub reply: ReplyKind,
}

/// The contents of a [`Hidpp10Request`].
#[verifier::ext_equal]
pub struct RequestModel {
    pub wire: Seq<u8>,
    pub reply: ReplyKind,
}

impl View for Hidpp10Request {
    type V = RequestModel;

    open spec fn view(&self) -> RequestModel {
        RequestModel { wire: self.wire@, reply: self.reply }
    }
}

impl RequestModel {
    /// A short request with a short answer.
    pub open spec fn short(device: u8, sub_id: u8, register: u8, params: Seq<u8>) -> RequestModel {
        RequestModel {
            wire: hidpp::short_request(device, sub_id, register, params),
            reply: ReplyKind::Short { device, sub_id, register },
        }
    }

    /// A short request with a long answer.
    pub open spec fn short_for_long(device: u8, sub_id: u8, register: u8, params: Seq<u8>) -> RequestModel {
        RequestModel {
            wire: hidpp::short_request(device, sub_id, register, params),
            reply: ReplyKind::Long { device, sub_id, register },
        }
    }

    /// A long request with a long answer.
    pub open spec fn long(device: u8, sub_id: u8, register: u8, params: Seq<u8>) -> RequestModel {
        RequestModel {
            wire: hidpp::long_request(device, sub_id, register, params),
            reply: ReplyKind::Long { device, sub_id, register },
        }
    }

    /// The request for a register.
    pub open spec fn get(device: u8, register: u8, params: Seq<u8>) -> RequestModel {
        RequestModel::short(device, SUB_ID_GET_REGISTER, register, params)
    }

    /// The request that sets a register.
    pub open spec fn set(device: u8, register: u8, params: Seq<u8>) -> RequestModel {
        RequestModel::short(device, SUB_ID_SET_REGISTER, register, params)
    }
}

/// The parameters of a report that answers a request; `None` for any other
/// report, and for one that says that a request has failed.
pub open spec fn answer_of(reply: ReplyKind, buf: Seq<u8>) -> Option<Seq<u8>> {
    match reply {
        ReplyKind::Short { device, sub_id, register } => if buf.len() >= 7 && buf[0]
            == hidpp::REPORT_ID_SHORT && buf[1] == device && buf[2] == sub_id && buf[3] == register
            && sub_id != hidpp::HIDPP10_ERROR {
            Some(buf.subrange(4, 7))
        } else {
            None
        },
        ReplyKind::Long { device, sub_id, register } => if buf.len() >= 20 && buf[0]
            == hidpp::REPORT_ID_LONG && buf[1] == device && buf[2] == sub_id && buf[3] == register
            && sub_id != hidpp::HIDPP20_ERROR {
            Some(buf.subrange(4, 20))
        } else {
            None
        },
        ReplyKind::Notice { device, id } => if buf.len() >= 20 && buf[0] == hidpp::REPORT_ID_LONG
            && buf[1] == device && buf[2] == HOT_NOTIFICATION && buf[4] == id {
            Some(buf.subrange(4, 20))
        } else {
            None
        },
    }
}

/// How many parameters the answer to a request has.
pub open spec fn answer_size(reply: ReplyKind) -> nat {
    match reply {
        ReplyKind::Short { .. } => 3,
        _ => 16,
    }
}

/// An answer has as many parameters as its kind says.
pub proof fn answers_have_their_size(reply: ReplyKind, buf: Seq<u8>)
    ensures
        answer_of(reply, buf) matches Some(params) ==> params.len() == answer_size(reply),
{
}

impl Hidpp10Request {
    pub fn short(device: u8, sub_id: u8, register: u8, params: &[u8; 3]) -> (r: Self)
        ensures
            r@ == RequestModel::short(device, sub_id, register, params@),
    {
        let wire = hidpp::build_short_report(device, sub_id, register, params.as_slice());
        let r = Hidpp10Request {
            wire: bytes::slice(wire.as_slice(), 0, 7),
            reply: ReplyKind::Short { device, sub_id, register },
        };
        assert(r.wire@ =~= wire@);
        r
    }

    pub fn short_for_long(device: u8, sub_id: u8, register: u8, params: &[u8; 3]) -> (r: Self)
        ensures
            r@ == RequestModel::short_for_long(device, sub_id, register, params@),
    {
        let wire = hidpp::build_short_report(device, sub_id, register, params.as_slice());
        let r = Hidpp10Request {
            wire: bytes::slice(wire.as_slice(), 0, 7),
            reply: ReplyKind::Long { device, sub_id, register },
        };
        assert(r.wire@ =~= wire@);
        r
    }

    pub fn long(device: u8, sub_id: u8, register: u8, params: &[u8; 16]) -> (r: Self)
        ensures
            r@ == RequestModel::long(device, sub_id, register, params@),
    {
        let wire = hidpp::build_long_report(device, sub_id, register, params.as_slice());
        let r = Hidpp10Request {
            wire: bytes::slice(wire.as_slice(), 0, 20),
            reply: ReplyKind::Long { device, sub_id, register },
        };
        assert(r.wire@ =~= wire@);
        r
    }

    /// The request for a register.
    pub fn get_register(device: u8, register: u8, params: &[u8; 3]) -> (r: Self)
        ensures
            r@ == RequestModel::get(device, register, params@),
    {
        Hidpp10Request::short(device, SUB_ID_GET_REGISTER, register, params)
    }

    /// The request that sets a register.
    pub fn set_register(device: u8, register: u8, params: &[u8; 3]) -> (r: Self)
        ensures
            r@ == RequestModel::set(device, register, params@),
    {
        Hidpp10Request::short(device, SUB_ID_SET_REGISTER, register, params)
    }

    /// The parameters of a report, if it answers the request.
    pub fn match_reply(&self, buf: &[u8]) -> (r: Option<Vec<u8>>)
        ensures
            match r {
                Some(params) => answer_of(self.reply, buf@) == Some(params@),
                None => answer_of(self.reply, buf@) is None,
            },
    {
        let report = match HidppReport::parse(buf) {
            Some(report) => report,
            None => {
                return None;
            },
        };
        proof {
            let w = report.wire();
            assert(w.len() == if report is Short {
                7nat
            } else {
                20
            });
            assert(w[0] == buf@[0] && w[1] == buf@[1] && w[2] == buf@[2] && w[3] == buf@[3]);
            assert(w.subrange(4, w.len() as int) =~= report.payload());
            assert(buf@.subrange(4, w.len() as int) =~= w.subrange(4, w.len() as int));
        }
        if report.is_error() {
            return None;
        }
        match (self.reply, report) {
            (
                ReplyKind::Short { device, sub_id, register },
                HidppReport::Short { device_index, sub_id: sub, address, params },
            ) => if device_index == device && sub == sub_id && address == register {
                let out = bytes::slice(params.as_slice(), 0, 3);
                assert(out@ =~= buf@.subrange(4, 7));
                Some(out)
            } else {
                None
            },
            (
                ReplyKind::Long { device, sub_id, register },
                HidppReport::Long { device_index, sub_id: sub, address, params },
            ) => if device_index == device && sub == sub_id && address == register {
                let out = bytes::slice(params.as_slice(), 0, 16);
                assert(out@ =~= buf@.subrange(4, 20));
                Some(out)
            } else {
                None
            },
            (
                ReplyKind::Notice { device, id },
                HidppReport::Long { device_index, sub_id: sub, address: _, params },
            ) => {
                assert(params@[0] == buf@[4]) by {
                    assert(report.payload()[0] == buf@.subrange(4, 20)[0]);
                }
                if device_index == device && sub == HOT_NOTIFICATION && params[0] == id {
                    let out = bytes::slice(params.as_slice(), 0, 16);
                    assert(out@ =~= buf@.subrange(4, 20));
                    Some(out)
                } else {
                    None
                }
            },
            _ => None,
        }
    }
}

/// The flags that three bytes of the notification register hold.
pub open spec fn notification_flags(p: Seq<u8>) -> int {
    p[0] + p[1] % 32 * 256 + p[2] % 8 * 65536
}

pub fn parse_notifications(p: &[u8; 3]) -> (r: u32)
    ensures
        r == notification_flags(p@),
{
    p[0] as u32 + (p[1] % 32) as u32 * 256 + (p[2] % 8) as u32 * 65536
}

/// The bytes for notification flags; bits that are not in use are dropped.
pub open spec fn notification_bytes(flags: u32) -> Seq<u8> {
    seq![(flags % 256) as u8, (flags / 256 % 32) as u8, (flags / 65536 % 8) as u8]
}

pub fn encode_notifications(flags: u32) -> (r: [u8; 3])
    ensures
        r@ == notification_bytes(flags),
{
    let r: [u8; 3] = [
        (flags % 256) as u8,
        (flags / 256 % 32) as u8,
        (flags / 65536 % 8) as u8,
    ];
    assert(r@ =~= notification_bytes(flags));
    r
}

/// Notification flags that are in use come back as they were written.
pub proof fn notifications_round_trip(p: Seq<u8>)
    requires
        p.len() == 3,
        p[1] < 32,
        p[2] < 8,
    ensures
        notification_bytes(notification_flags(p) as u32) == p,
{
    assert(notification_bytes(notification_flags(p) as u32) =~= p);
}

/// The bits 1 to 3 of a byte.
pub open spec fn feature_bits(b: u8) -> int {
    b % 16 - b % 2
}

/// The mask that three bytes of the feature register hold.
pub open spec fn feature_mask(p: Seq<u8>) -> int {
    p[0] + feature_bits(p[1]) * 256 + p[2] % 64 * 65536
}

pub fn parse_individual_features(p: &[u8; 3]) -> (r: u32)
    ensures
        r == feature_mask(p@),
{
    p[0] as u32 + (p[1] % 16 - p[1] % 2) as u32 * 256 + (p[2] % 64) as u32 * 65536
}

/// The bytes for a feature mask; bits that are not in use are dropped.
pub open spec fn feature_bytes(mask: u32) -> Seq<u8> {
    seq![
        (mask % 256) as u8,
        feature_bits((mask / 256 % 256) as u8) as u8,
        (mask / 65536 % 64) as u8,
    ]
}

pub fn encode_individual_features(mask: u32) -> (r: [u8; 3])
    ensures
        r@ == feature_bytes(mask),
{
    let mid: u8 = (mask / 256 % 256) as u8;
    let r: [u8; 3] = [(mask % 256) as u8, mid % 16 - mid % 2, (mask / 65536 % 64) as u8];
    assert(r@ =~= feature_bytes(mask));
    r
}

/// A feature mask comes back as it was written.
pub proof fn features_round_trip(p: Seq<u8>)
    requires
        p.len() == 3,
        feature_bits(p[1]) == p[1],
        p[2] < 64,
    ensures
        feature_bytes(feature_mask(p) as u32) == p,
{
    assert(feature_bytes(feature_mask(p) as u32) =~= p);
}

/// Reads the battery status register. The threshold is in steps of 5 percent,
/// and 0 beyond the sixth.
pub fn parse_battery_status(p: &[u8; 3]) -> (r: BatteryStatusInfo)
    ensures
        r.level.code() == if p[0] <= 7 {
            p[0]
        } else {
            0
        },
        r.charge_state.code() == if p[1] < 0x20 {
            0
        } else if p[1] <= 0x26 {
            p[1]
        } else {
            0x20
        },
        r.low_threshold_percent == if p[2] < 7 {
            p[2] * 5
        } else {
            0
        },
{
    let step: u8 = if p[2] >= 7 {
        0
    } else {
        p[2]
    };
    BatteryStatusInfo {
        level: BatteryLevel::from_u8(p[0]),
        charge_state: BatteryChargeState::from_u8(p[1]),
        low_threshold_percent: step * 5,
    }
}

/// The seconds in the unit of a battery mileage.
pub open spec fn mileage_unit(p2: u8) -> int {
    if p2 / 16 % 4 == 3 {
        86400
    } else if p2 / 16 % 4 == 2 {
        3600
    } else if p2 / 16 % 4 == 1 {
        60
    } else {
        1
    }
}

/// Reads the battery mileage register: the level in percent, a count of
/// seconds, minutes, hours or days, and the charge state.
pub fn parse_battery_mileage(p: &[u8; 3]) -> (r: BatteryMileage)
    ensures
        r.level_percent == p[0] % 128,
        r.max_seconds == (p[1] + p[2] % 16 * 256) * mileage_unit(p[2]),
        r.charge_state == if p[2] / 64 == 1 {
            BatteryChargeState::Charging
        } else if p[2] / 64 == 2 {
            BatteryChargeState::ChargingComplete
        } else if p[2] / 64 == 3 {
            BatteryChargeState::ChargingError
        } else {
            BatteryChargeState::NotCharging
        },
{
    let count: u32 = p[1] as u32 + (p[2] % 16) as u32 * 256;
    let max_seconds: u32 = match p[2] / 16 % 4 {
        3 => count * 86400,
        2 => count * 3600,
        1 => count * 60,
        _ => count,
    };
    let charge_state = match p[2] / 64 {
        1 => BatteryChargeState::Charging,
        2 => BatteryChargeState::ChargingComplete,
        3 => BatteryChargeState::ChargingError,
        _ => BatteryChargeState::NotCharging,
    };
    BatteryMileage { level_percent: p[0] % 128, max_seconds, charge_state }
}

/// The four bits for LED `i` of six.
pub open spec fn led_nibble(p: Seq<u8>, i: int) -> int {
    if i % 2 == 0 {
        p[i / 2] as int % 16
    } else {
        p[i / 2] as int / 16
    }
}

/// Reads the LED status register.
pub fn parse_led_status(p: &[u8; 3]) -> (r: [LedStatus; 6])
    ensures
        forall|i: int|
            0 <= i < 6 ==> (#[trigger] r[i]).code() == if led_nibble(p@, i) <= 6 {
                led_nibble(p@, i)
            } else {
                0
            },
{
    [
        LedStatus::from_nibble(p[0]),
        LedStatus::from_nibble(p[0] / 16),
        LedStatus::from_nibble(p[1]),
        LedStatus::from_nibble(p[1] / 16),
        LedStatus::from_nibble(p[2]),
        LedStatus::from_nibble(p[2] / 16),
    ]
}

/// The bytes of the LED status register.
pub fn encode_led_status(leds: &[LedStatus; 6]) -> (r: [u8; 3])
    ensures
        forall|i: int| 0 <= i < 6 ==> led_nibble(r@, i) == (#[trigger] leds[i]).code(),
{
    let r: [u8; 3] = [
        leds[0].to_nibble() + leds[1].to_nibble() * 16,
        leds[2].to_nibble() + leds[3].to_nibble() * 16,
        leds[4].to_nibble() + leds[5].to_nibble() * 16,
    ];
    assert(led_nibble(r@, 0) == leds[0].code() && led_nibble(r@, 1) == leds[1].code());
    assert(led_nibble(r@, 2) == leds[2].code() && led_nibble(r@, 3) == leds[3].code());
    assert(led_nibble(r@, 4) == leds[4].code() && led_nibble(r@, 5) == leds[5].code());
    assert forall|i: int| 0 <= i < 6 implies led_nibble(r@, i) == (#[trigger] leds[i]).code() by {
        assert(i == 0 || i == 1 || i == 2 || i == 3 || i == 4 || i == 5);
    }
    r
}

/// Reads the LED intensity register, in percent.
pub fn parse_led_intensity(p: &[u8; 3]) -> (r: [u8; 6])
    ensures
        forall|i: int| 0 <= i < 6 ==> #[trigger] r[i] == 10 * led_nibble(p@, i),
{
    [
        10 * (p[0] % 16),
        10 * (p[0] / 16),
        10 * (p[1] % 16),
        10 * (p[1] / 16),
        10 * (p[2] % 16),
        10 * (p[2] / 16),
    ]
}

/// The byte for two intensities, in tens of percent.
pub open spec fn intensity_pair(lo: u8, hi: u8) -> u8 {
    (lo / 10) | ((hi / 10) << 4)
}

/// The bytes of the LED intensity register.
pub fn encode_led_intensity(pcts: &[u8; 6]) -> (r: [u8; 3])
    ensures
        r@ == seq![
            intensity_pair(pcts[0], pcts[1]),
            intensity_pair(pcts[2], pcts[3]),
            intensity_pair(pcts[4], pcts[5]),
        ],
{
    let r: [u8; 3] = [
        (pcts[0] / 10) | ((pcts[1] / 10) << 4),
        (pcts[2] / 10) | ((pcts[3] / 10) << 4),
        (pcts[4] / 10) | ((pcts[5] / 10) << 4),
    ];
    assert(r@ =~= seq![
        intensity_pair(pcts[0], pcts[1]),
        intensity_pair(pcts[2], pcts[3]),
        intensity_pair(pcts[4], pcts[5]),
    ]);
    r
}

/// Intensities of up to 150 percent come back, rounded down to tens.
pub proof fn intensity_round_trip(lo: u8, hi: u8)
    requires
        lo <= 150,
        hi <= 150,
    ensures
        10 * (intensity_pair(lo, hi) % 16) == lo - lo % 10,
        10 * (intensity_pair(lo, hi) / 16) == hi - hi % 10,
{
    let a: u8 = lo / 10;
    let b: u8 = hi / 10;
    assert((a | (b << 4)) % 16 == a && (a | (b << 4)) / 16 == b) by (bit_vector)
        requires
            a < 16,
            b < 16,
    ;
}

/// The request that lets a receiver pair with a new device.
pub fn open_pairing_lock(timeout: u8) -> (r: Hidpp10Request)
    ensures
        r@ == RequestModel::set(
            HIDPP_RECEIVER_IDX,
            REG_DEVICE_CONNECTION,
            seq![CONNECT_OPEN_LOCK, 0xFFu8, timeout],
        ),
{
    let params: [u8; 3] = [CONNECT_OPEN_LOCK, 0xFF, timeout];
    assert(params@ =~= seq![CONNECT_OPEN_LOCK, 0xFFu8, timeout]);
    Hidpp10Request::set_register(HIDPP_RECEIVER_IDX, REG_DEVICE_CONNECTION, &params)
}

/// The request that ends pairing.
pub fn close_pairing_lock() -> (r: Hidpp10Request)
    ensures
        r@ == RequestModel::set(
            HIDPP_RECEIVER_IDX,
            REG_DEVICE_CONNECTION,
            seq![CONNECT_CLOSE_LOCK, 0xFFu8, 0u8],
        ),
{
    let params: [u8; 3] = [CONNECT_CLOSE_LOCK, 0xFF, 0];
    assert(params@ =~= seq![CONNECT_CLOSE_LOCK, 0xFFu8, 0u8]);
    Hidpp10Request::set_register(HIDPP_RECEIVER_IDX, REG_DEVICE_CONNECTION, &params)
}

/// The request that makes a receiver forget a device.
pub fn disconnect_device(device_idx: u8) -> (r: Hidpp10Request)
    ensures
        r@ == RequestModel::set(
            HIDPP_RECEIVER_IDX,
            REG_DEVICE_CONNECTION,
            seq![CONNECT_DISCONNECT, device_idx, 0u8],
        ),
{
    let params: [u8; 3] = [CONNECT_DISCONNECT, device_idx, 0];
    assert(params@ =~= seq![CONNECT_DISCONNECT, device_idx, 0u8]);
    Hidpp10Request::set_register(HIDPP_RECEIVER_IDX, REG_DEVICE_CONNECTION, &params)
}

/// The request for one kind of pairing information on a device.
pub fn pairing_request(kind: u8, device_index: u8) -> (r: Hidpp10Request)
    requires
        1 <= kind + device_index <= 255,
    ensures
        r@ == RequestModel::short_for_long(
            HIDPP_RECEIVER_IDX,
            SUB_ID_GET_LONG_REGISTER,
            REG_PAIRING_INFORMATION,
            seq![(kind + device_index - 1) as u8, 0u8, 0u8],
        ),
{
    let params: [u8; 3] = [kind + device_index - 1, 0, 0];
    assert(params@ =~= seq![(kind + device_index - 1) as u8, 0u8, 0u8]);
    Hidpp10Request::short_for_long(
        HIDPP_RECEIVER_IDX,
        SUB_ID_GET_LONG_REGISTER,
        REG_PAIRING_INFORMATION,
        &params,
    )
}

/// Reads the answer for a paired device.
pub fn parse_pairing_info(p: &[u8; 16]) -> (r: PairingInfo)
    ensures
        r == (PairingInfo {
            report_interval: p[2],
            wpid: bytes::be16(p[3], p[4]),
            device_type: p[7],
        }),
{
    PairingInfo {
        report_interval: p[2],
        wpid: bytes::u16_from(p[3], p[4]),
        device_type: p[7],
    }
}

/// Where the name of a paired device ends in an answer.
pub open spec fn name_end(len: u8) -> int {
    if 2 + len < 16 {
        2 + len
    } else {
        16
    }
}

/// Reads the name of a paired device. The second byte is its length.
pub fn parse_pairing_name(p: &[u8; 16]) -> (r: String)
    ensures
        r@ == text::decoded(p@.subrange(2, name_end(p[1]))),
{
    let len: usize = p[1] as usize;
    let end: usize = if 2 + len < 16 {
        2 + len
    } else {
        16
    };
    let part = vstd::slice::slice_subrange(p.as_slice(), 2, end);
    text::from_utf8_lossy(part)
}

/// Reads the serial number of a paired device.
pub fn parse_extended_pairing(p: &[u8; 16]) -> (r: u32)
    ensures
        r == p[1] * 0x1000000 + p[2] * 0x10000 + p[3] * 0x100 + p[4],
{
    p[1] as u32 * 0x1000000 + p[2] as u32 * 0x10000 + p[3] as u32 * 0x100 + p[4] as u32
}

/// Reads the answers for the firmware version and the firmware build.
pub fn parse_firmware(version: &[u8; 3], build: &[u8; 3]) -> (r: FirmwareInfo)
    ensures
        r == (FirmwareInfo {
            major: version[1],
            minor: version[2],
            build: bytes::be16(build[1], build[2]),
        }),
{
    FirmwareInfo {
        major: version[1],
        minor: version[2],
        build: bytes::u16_from(build[1], build[2]),
    }
}

} // verus!
