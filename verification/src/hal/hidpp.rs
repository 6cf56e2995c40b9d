//! The report format that the Logitech HID++ protocols share.

use crate::bytes;
use vstd::prelude::*;

verus! {

pub const REPORT_ID_SHORT: u8 = 0x10;

pub const REPORT_ID_LONG: u8 = 0x11;

pub const SHORT_REPORT_SIZE: usize = 7;

pub const LONG_REPORT_SIZE: usize = 20;

/// The index of a device connected by cable.
pub const DEVICE_IDX_CORDED: u8 = 0xFF;

/// The index of the first device behind a receiver.
pub const DEVICE_IDX_RECEIVER: u8 = 0x01;

pub const ROOT_FEATURE_INDEX: u8 = 0x00;

pub const ROOT_FN_GET_FEATURE: u8 = 0x00;

pub const ROOT_FN_GET_PROTOCOL_VERSION: u8 = 0x01;

pub const PAGE_SPECIAL_KEYS_BUTTONS: u16 = 0x1b04;

pub const PAGE_ADJUSTABLE_DPI: u16 = 0x2201;

pub const PAGE_ADJUSTABLE_REPORT_RATE: u16 = 0x8060;

pub const PAGE_COLOR_LED_EFFECTS: u16 = 0x8070;

pub const PAGE_RGB_EFFECTS: u16 = 0x8071;

pub const PAGE_ONBOARD_PROFILES: u16 = 0x8100;

pub const BUTTON_TYPE_MACRO: u8 = 0x00;

pub const BUTTON_TYPE_HID: u8 = 0x80;

pub const BUTTON_TYPE_SPECIAL: u8 = 0x90;

pub const BUTTON_TYPE_DISABLED: u8 = 0xFF;

pub const BUTTON_SUBTYPE_MOUSE: u8 = 0x01;

pub const BUTTON_SUBTYPE_KEYBOARD: u8 = 0x02;

pub const BUTTON_SUBTYPE_CONSUMER: u8 = 0x03;

pub const LED_HW_MODE_OFF: u8 = 0x00;

pub const LED_HW_MODE_FIXED: u8 = 0x01;

pub const LED_HW_MODE_CYCLE: u8 = 0x03;

pub const LED_HW_MODE_COLOR_WAVE: u8 = 0x04;

pub const LED_HW_MODE_STARLIGHT: u8 = 0x05;

pub const LED_HW_MODE_BREATHING: u8 = 0x0A;

pub const LED_HW_MODE_TRICOLOR: u8 = 0x20;

/// Sub-id of an error report of HID++ 1.0.
pub const HIDPP10_ERROR: u8 = 0x8F;

/// Sub-id of an error report of HID++ 2.0.
pub const HIDPP20_ERROR: u8 = 0xFF;

/// The receiver knows the device but cannot reach it.
pub const HIDPP10_ERR_RESOURCE_ERROR: u8 = 0x09;

/// The byte that names a function and the software that calls it.
pub open spec fn function_byte(function: u8, sw_id: u8) -> u8 {
    ((function % 16) * 16 + sw_id % 16) as u8
}

/// The byte that names a function and the software that calls it.
pub fn fn_sw(function: u8, sw_id: u8) -> (r: u8)
    ensures
        r == function_byte(function, sw_id),
{
    (function % 16) * 16 + sw_id % 16
}

/// A HID++ report.
#[derive(Debug, Clone, Copy)]
pub enum HidppReport {
    Short { device_index: u8, sub_id: u8, address: u8, params: [u8; 3] },
    Long { device_index: u8, sub_id: u8, address: u8, params: [u8; 16] },
}

impl HidppReport {
    pub open spec fn device(self) -> u8 {
        match self {
            HidppReport::Short { device_index, .. } => device_index,
            HidppReport::Long { device_index, .. } => device_index,
        }
    }

    pub open spec fn sub(self) -> u8 {
        match self {
            HidppReport::Short { sub_id, .. } => sub_id,
            HidppReport::Long { sub_id, .. } => sub_id,
        }
    }

    pub open spec fn addr(self) -> u8 {
        match self {
            HidppReport::Short { address, .. } => address,
            HidppReport::Long { address, .. } => address,
        }
    }

    /// The parameter bytes: three of a short report, sixteen of a long one.
    pub open spec fn payload(self) -> Seq<u8> {
        match self {
            HidppReport::Short { params, .. } => params@,
            HidppReport::Long { params, .. } => params@,
        }
    }

    /// The bytes of the report as the device sends it.
    pub open spec fn wire(self) -> Seq<u8> {
        seq![
            if self is Short {
                REPORT_ID_SHORT
            } else {
                REPORT_ID_LONG
            },
            self.device(),
            self.sub(),
            self.addr(),
        ] + self.payload()
    }

    /// Whether `buf` begins with a report.
    pub open spec fn is_report(buf: Seq<u8>) -> bool {
        ||| buf.len() >= SHORT_REPORT_SIZE && buf[0] == REPORT_ID_SHORT
        ||| buf.len() >= LONG_REPORT_SIZE && buf[0] == REPORT_ID_LONG
    }

    /// Reads the report that `buf` begins with; bytes behind it are ignored.
    pub fn parse(buf: &[u8]) -> (r: Option<HidppReport>)
        ensures
            r is Some <==> HidppReport::is_report(buf@),
            r is Some ==> (r->0 is Short <==> buf@[0] == REPORT_ID_SHORT),
            r is Some ==> r->0.wire() == buf@.subrange(0, r->0.wire().len() as int),
    {
        if buf.len() >= SHORT_REPORT_SIZE && buf[0] == REPORT_ID_SHORT {
            let r = HidppReport::Short {
                device_index: buf[1],
                sub_id: buf[2],
                address: buf[3],
                params: [buf[4], buf[5], buf[6]],
            };
            assert(r.wire() =~= buf@.subrange(0, 7));
            Some(r)
        } else if buf.len() >= LONG_REPORT_SIZE && buf[0] == REPORT_ID_LONG {
            let params: [u8; 16] = [
                buf[4],
                buf[5],
                buf[6],
                buf[7],
                buf[8],
                buf[9],
                buf[10],
                buf[11],
                buf[12],
                buf[13],
                buf[14],
                buf[15],
                buf[16],
                buf[17],
                buf[18],
                buf[19],
            ];
            let r = HidppReport::Long {
                device_index: buf[1],
                sub_id: buf[2],
                address: buf[3],
                params,
            };
            assert(r.wire() =~= buf@.subrange(0, 20));
            Some(r)
        } else {
            None
        }
    }

    /// Whether this report says that a request has failed.
    pub open spec fn reports_error(self) -> bool {
        match self {
            HidppReport::Short { sub_id, .. } => sub_id == HIDPP10_ERROR,
            HidppReport::Long { sub_id, .. } => sub_id == HIDPP20_ERROR,
        }
    }

    pub fn is_error(&self) -> (r: bool)
        ensures
            r == self.reports_error(),
    {
        match self {
            HidppReport::Short { sub_id, .. } => *sub_id == HIDPP10_ERROR,
            HidppReport::Long { sub_id, .. } => *sub_id == HIDPP20_ERROR,
        }
    }

    /// The error code, if this report says that the given request has failed.
    pub open spec fn error_for(self, device: u8, feature: u8, fn_sw: u8) -> Option<u8> {
        if self.reports_error() && self.device() == device && self.addr() == feature
            && self.payload()[0] == fn_sw {
            Some(self.payload()[1])
        } else {
            None
        }
    }

    pub fn hidpp20_error_code(&self, device: u8, feature: u8, fn_sw: u8) -> (r: Option<u8>)
        ensures
            r == self.error_for(device, feature, fn_sw),
    {
        match self {
            HidppReport::Short { device_index, sub_id, address, params } => {
                if *sub_id == HIDPP10_ERROR && *device_index == device && *address == feature
                    && params[0] == fn_sw {
                    Some(params[1])
                } else {
                    None
                }
            },
            HidppReport::Long { device_index, sub_id, address, params } => {
                if *sub_id == HIDPP20_ERROR && *device_index == device && *address == feature
                    && params[0] == fn_sw {
                    Some(params[1])
                } else {
                    None
                }
            },
        }
    }

    /// Whether this report answers the given request.
    pub open spec fn answers(self, device: u8, feature: u8, function: u8, sw_id: u8) -> bool {
        self.device() == device && self.sub() == feature && self.addr() == function_byte(
            function,
            sw_id,
        )
    }

    pub fn matches_hidpp20_response(&self, device: u8, feature: u8, function: u8, sw_id: u8) -> (r:
        bool)
        ensures
            r == self.answers(device, feature, function, sw_id),
    {
        match self {
            HidppReport::Short { device_index, sub_id, address, .. } => {
                *device_index == device && *sub_id == feature && *address == fn_sw(function, sw_id)
            },
            HidppReport::Long { device_index, sub_id, address, .. } => {
                *device_index == device && *sub_id == feature && *address == fn_sw(function, sw_id)
            },
        }
    }
}

/// The bytes of a long request.
pub open spec fn long_request(device: u8, sub_id: u8, address: u8, params: Seq<u8>) -> Seq<u8> {
    seq![REPORT_ID_LONG, device, sub_id, address] + bytes::padded(params, 16)
}

/// The bytes of a short request.
pub open spec fn short_request(device: u8, sub_id: u8, address: u8, params: Seq<u8>) -> Seq<u8> {
    seq![REPORT_ID_SHORT, device, sub_id, address] + bytes::padded(params, 3)
}

fn byte_or_zero(s: &[u8], i: usize) -> (r: u8)
    ensures
        r == (if i < s@.len() {
            s@[i as int]
        } else {
            0
        }),
{
    if i < s.len() {
        s[i]
    } else {
        0
    }
}

/// A short request; parameters beyond the third are dropped.
pub fn build_short_report(device: u8, sub_id: u8, address: u8, params: &[u8]) -> (r: [u8; 7])
    ensures
        r@ == short_request(device, sub_id, address, params@),
{
    let r: [u8; 7] = [
        REPORT_ID_SHORT,
        device,
        sub_id,
        address,
        byte_or_zero(params, 0),
        byte_or_zero(params, 1),
        byte_or_zero(params, 2),
    ];
    assert(r@ =~= short_request(device, sub_id, address, params@));
    r
}

/// A long request; parameters beyond the sixteenth are dropped.
pub fn build_long_report(device: u8, sub_id: u8, address: u8, params: &[u8]) -> (r: [u8; 20])
    ensures
        r@ == long_request(device, sub_id, address, params@),
{
    let r: [u8; 20] = [
        REPORT_ID_LONG,
        device,
        sub_id,
        address,
        byte_or_zero(params, 0),
        byte_or_zero(params, 1),
        byte_or_zero(params, 2),
        byte_or_zero(params, 3),
        byte_or_zero(params, 4),
        byte_or_zero(params, 5),
        byte_or_zero(params, 6),
        byte_or_zero(params, 7),
        byte_or_zero(params, 8),
        byte_or_zero(params, 9),
        byte_or_zero(params, 10),
        byte_or_zero(params, 11),
        byte_or_zero(params, 12),
        byte_or_zero(params, 13),
        byte_or_zero(params, 14),
        byte_or_zero(params, 15),
    ];
    assert(r@ =~= long_request(device, sub_id, address, params@));
    r
}

/// A long request to a function of a feature.
pub fn build_hidpp20_request(
    device: u8,
    feature: u8,
    function: u8,
    sw_id: u8,
    params: &[u8],
) -> (r: [u8; 20])
    ensures
        r@ == long_request(device, feature, function_byte(function, sw_id), params@),
{
    build_long_report(device, feature, fn_sw(function, sw_id), params)
}

/// A short request to a function of a feature.
pub fn build_hidpp20_short_request_with_params(
    device: u8,
    feature: u8,
    function: u8,
    sw_id: u8,
    params: &[u8],
) -> (r: [u8; 7])
    ensures
        r@ == short_request(device, feature, function_byte(function, sw_id), params@),
{
    build_short_report(device, feature, fn_sw(function, sw_id), params)
}

/// The bit mask that stands for a mouse button; 0 for a number that is not
/// among the sixteen buttons.
pub open spec fn button_mask(button: u32) -> u16 {
    if 1 <= button <= 16 {
        vstd::arithmetic::power2::pow2((button - 1) as nat) as u16
    } else {
        0
    }
}

/// The button that a bit mask stands for: that of its lowest bit.
pub open spec fn button_of_mask(mask: u16) -> u32 {
    if mask == 0 {
        0
    } else {
        (bytes::lowest_bit(mask as nat) + 1) as u32
    }
}

/// The bit mask that stands for a mouse button.
pub(crate) fn mask_for_button(button: u32) -> (r: u16)
    ensures
        r == button_mask(button),
{
    proof {
        vstd::arithmetic::power2::lemma2_to64();
    }
    match button {
        1 => 0x0001,
        2 => 0x0002,
        3 => 0x0004,
        4 => 0x0008,
        5 => 0x0010,
        6 => 0x0020,
        7 => 0x0040,
        8 => 0x0080,
        9 => 0x0100,
        10 => 0x0200,
        11 => 0x0400,
        12 => 0x0800,
        13 => 0x1000,
        14 => 0x2000,
        15 => 0x4000,
        16 => 0x8000,
        _ => 0,
    }
}

/// The button that a bit mask stands for.
pub(crate) fn button_for_mask(mask: u16) -> (r: u32)
    ensures
        r == button_of_mask(mask),
        r <= 16,
{
    if mask == 0 {
        0
    } else {
        bytes::find_lowest_bit(mask) + 1
    }
}

proof fn lemma_lowest_bit_of_pow2(n: nat)
    ensures
        bytes::lowest_bit(vstd::arithmetic::power2::pow2(n)) == n,
    decreases n,
{
    vstd::arithmetic::power2::lemma_pow2_pos(n);
    if n == 0 {
        vstd::arithmetic::power2::lemma2_to64();
    } else {
        vstd::arithmetic::power2::lemma_pow2_unfold(n);
        lemma_lowest_bit_of_pow2((n - 1) as nat);
    }
}

/// A mouse button survives its mask.
pub proof fn button_mask_round_trip(button: u32)
    requires
        1 <= button <= 16,
    ensures
        button_of_mask(button_mask(button)) == button,
{
    vstd::arithmetic::power2::lemma2_to64();
    vstd::arithmetic::power2::lemma_pow2_pos((button - 1) as nat);
    lemma_lowest_bit_of_pow2((button - 1) as nat);
    if button < 16 {
        vstd::arithmetic::power2::lemma_pow2_strictly_increases((button - 1) as nat, 15);
    }
}

/// One bit of the CRC-CCITT division.
pub open spec fn crc_shift(crc: u16) -> u16 {
    if crc & 0x8000 != 0 {
        (crc << 1) ^ 0x1021
    } else {
        crc << 1
    }
}

/// `n` bits of the CRC-CCITT division.
pub open spec fn crc_shift_n(crc: u16, n: nat) -> u16
    decreases n,
{
    if n == 0 {
        crc
    } else {
        crc_shift(crc_shift_n(crc, (n - 1) as nat))
    }
}

/// The CRC after one more byte.
pub open spec fn crc_byte(crc: u16, b: u8) -> u16 {
    crc_shift_n(crc ^ ((b as u16) << 8), 8)
}

/// CRC-CCITT with the polynomial 0x1021 and the start value 0xFFFF.
pub open spec fn crc_ccitt(s: Seq<u8>) -> u16
    decreases s.len(),
{
    if s.len() == 0 {
        0xFFFF
    } else {
        crc_byte(crc_ccitt(s.drop_last()), s.last())
    }
}

/// CRC-CCITT with the polynomial 0x1021 and the start value 0xFFFF.
pub fn compute_ccitt_crc(data: &[u8]) -> (r: u16)
    ensures
        r == crc_ccitt(data@),
{
    let mut crc: u16 = 0xFFFF;
    let mut i: usize = 0;
    while i < data.len()
        invariant
            i <= data@.len(),
            crc == crc_ccitt(data@.subrange(0, i as int)),
        decreases data@.len() - i,
    {
        let ghost before = crc;
        let start: u16 = crc ^ ((data[i] as u16) << 8);
        let mut c: u16 = start;
        let mut bit: u32 = 0;
        while bit < 8
            invariant
                bit <= 8,
                c == crc_shift_n(start, bit as nat),
            decreases 8 - bit,
        {
            c = if c & 0x8000 != 0 {
                (c << 1) ^ 0x1021
            } else {
                c << 1
            };
            bit += 1;
        }
        crc = c;
        proof {
            let next = data@.subrange(0, i as int + 1);
            assert(next.drop_last() =~= data@.subrange(0, i as int));
            assert(next.last() == data@[i as int]);
        }
        i += 1;
    }
    assert(data@.subrange(0, i as int) =~= data@);
    crc
}

/// The name of a HID++ 2.0 error code.
pub open spec fn error_name(code: u8) -> Seq<char> {
    match code {
        0x00 => "SUCCESS"@,
        0x01 => "UNKNOWN"@,
        0x02 => "INVALID_ARGUMENT"@,
        0x03 => "OUT_OF_RANGE"@,
        0x04 => "HARDWARE_ERROR"@,
        0x05 => "LOGITECH_INTERNAL"@,
        0x06 => "INVALID_FEATURE_INDEX"@,
        0x07 => "INVALID_FUNCTION_ID"@,
        0x08 => "BUSY"@,
        0x09 => "UNSUPPORTED"@,
        _ => "UNRECOGNIZED"@,
    }
}

/// The name of a HID++ 2.0 error code.
pub fn hidpp20_error_name(code: u8) -> (r: &'static str)
    ensures
        r@ == error_name(code),
{
    match code {
        0x00 => "SUCCESS",
        0x01 => "UNKNOWN",
        0x02 => "INVALID_ARGUMENT",
        0x03 => "OUT_OF_RANGE",
        0x04 => "HARDWARE_ERROR",
        0x05 => "LOGITECH_INTERNAL",
        0x06 => "INVALID_FEATURE_INDEX",
        0x07 => "INVALID_FUNCTION_ID",
        0x08 => "BUSY",
        0x09 => "UNSUPPORTED",
        _ => "UNRECOGNIZED",
    }
}

} // verus!
