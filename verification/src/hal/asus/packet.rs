//! Requests, answers, and what the answers hold.

use crate::bytes;
use crate::hal::error::DriverError;
use vstd::prelude::*;

verus! {

pub const ASUS_PACKET_SIZE: usize = 64;

/// The status of a device that is asleep or disconnected.
pub const ASUS_STATUS_ERROR: u16 = 0xaaff;

pub const ASUS_MAX_NUM_BUTTON: usize = 17;

pub const ASUS_MAX_NUM_LED: usize = 3;

/// A request.
#[derive(Debug, Clone, Copy)]
pub struct AsusRequest {
    pub buf: [u8; 64],
}

/// A request without parameters.
pub open spec fn bare_request(cmd: u16) -> Seq<u8> {
    bytes::padded(bytes::le_bytes(cmd), 64)
}

/// A packet with the parameter at `idx` set; one that the packet does not have
/// is ignored.
pub open spec fn with_param(buf: Seq<u8>, idx: int, val: u8) -> Seq<u8> {
    if 2 + idx < 64 {
        buf.update(2 + idx, val)
    } else {
        buf
    }
}

impl AsusRequest {
    pub fn new(cmd: u16) -> (r: Self)
        ensures
            r.buf@ == bare_request(cmd),
    {
        let mut buf: [u8; 64] = [0u8; 64];
        buf[0] = bytes::low_byte(cmd);
        buf[1] = bytes::high_byte(cmd);
        assert(buf@ =~= bare_request(cmd));
        AsusRequest { buf }
    }

    /// Sets a parameter; one that the packet does not have is ignored.
    pub fn set_param(&mut self, idx: usize, val: u8)
        requires
            2 + idx <= usize::MAX,
        ensures
            final(self).buf@ == with_param(old(self).buf@, idx as int, val),
    {
        if 2 + idx < 64 {
            self.buf[2 + idx] = val;
        }
        assert(self.buf@ =~= with_param(old(self).buf@, idx as int, val));
    }
}

/// An answer.
#[derive(Debug, Clone, Copy)]
pub struct AsusResponse {
    pub buf: [u8; 64],
}

impl Default for AsusResponse {
    fn default() -> (r: Self)
        ensures
            r.buf@ == bytes::filled(64, 0),
    {
        let r = AsusResponse { buf: [0u8; 64] };
        assert(r.buf@ =~= bytes::filled(64, 0));
        r
    }
}

/// Whether an answer is that of a device that is asleep or disconnected.
pub open spec fn signals_error(buf: Seq<u8>) -> bool {
    bytes::be16(buf[1], buf[0]) == ASUS_STATUS_ERROR
}

/// The byte at `idx` behind the status; 0 beyond the end of the packet.
pub open spec fn result_byte(buf: Seq<u8>, idx: int) -> u8 {
    if 2 + idx < 64 {
        buf[2 + idx]
    } else {
        0
    }
}

/// The number that the two bytes at `idx` hold, the least significant first.
pub open spec fn result_word(buf: Seq<u8>, idx: int) -> u16 {
    bytes::be16(result_byte(buf, idx + 1), result_byte(buf, idx))
}

impl AsusResponse {
    pub fn status_code(&self) -> (r: u16)
        ensures
            r == bytes::be16(self.buf[1], self.buf[0]),
    {
        bytes::u16_from(self.buf[1], self.buf[0])
    }

    /// Refuses the answer of a device that is asleep or disconnected.
    pub fn check(&self) -> (r: Result<(), DriverError>)
        ensures
            match r {
                Ok(_) => !signals_error(self.buf@),
                Err(e) => signals_error(self.buf@) && e == (DriverError::ProtocolError {
                    sub_id: self.buf[0],
                    error: self.buf[1],
                }),
            },
    {
        if self.status_code() == ASUS_STATUS_ERROR {
            Err(DriverError::ProtocolError { sub_id: self.buf[0], error: self.buf[1] })
        } else {
            Ok(())
        }
    }

    /// The byte at `idx` behind the status; 0 beyond the end of the packet.
    pub fn result(&self, idx: usize) -> (r: u8)
        requires
            2 + idx <= usize::MAX,
        ensures
            r == result_byte(self.buf@, idx as int),
    {
        if 2 + idx < 64 {
            self.buf[2 + idx]
        } else {
            0
        }
    }

    fn word(&self, idx: usize) -> (r: u16)
        requires
            idx < 1000,
        ensures
            r == result_word(self.buf@, idx as int),
    {
        bytes::u16_from(self.result(idx + 1), self.result(idx))
    }
}

/// The code of a button and the type of its action.
#[derive(Debug, Clone, Copy, PartialEq, Eq, Structural)]
pub struct AsusBinding {
    pub action: u8,
    pub type_: u8,
}

/// The bindings of one group of buttons.
#[derive(Debug, Clone, Copy)]
pub struct AsusBindingData {
    pub bindings: [AsusBinding; 17],
}

/// The binding at place `k` of an answer.
pub open spec fn binding_at(buf: Seq<u8>, k: int) -> AsusBinding {
    AsusBinding { action: result_byte(buf, 2 + k * 2), type_: result_byte(buf, 3 + k * 2) }
}

impl AsusBindingData {
    pub fn from_response(resp: &AsusResponse) -> (r: Self)
        ensures
            forall|k: int| 0 <= k < 17 ==> #[trigger] r.bindings[k] == binding_at(resp.buf@, k),
    {
        let mut bindings: [AsusBinding; 17] = [AsusBinding { action: 0, type_: 0 }; 17];
        let mut k: usize = 0;
        while k < 17
            invariant
                k <= 17,
                forall|j: int| 0 <= j < k ==> #[trigger] bindings[j] == binding_at(resp.buf@, j),
            decreases 17 - k,
        {
            bindings[k] = AsusBinding {
                action: resp.result(2 + k * 2),
                type_: resp.result(3 + k * 2),
            };
            k += 1;
        }
        AsusBindingData { bindings }
    }
}

/// The settings of a device with two DPI presets.
#[derive(Debug, Clone, Copy)]
pub struct AsusDpi2Data {
    pub dpi: [u16; 2],
    pub rate_idx: u16,
    pub response_idx: u16,
    pub snapping: u16,
}

impl AsusDpi2Data {
    pub fn from_response(resp: &AsusResponse) -> (r: Self)
        ensures
            r.dpi@ == seq![result_word(resp.buf@, 2), result_word(resp.buf@, 4)],
            r.rate_idx == result_word(resp.buf@, 6),
            r.response_idx == result_word(resp.buf@, 8),
            r.snapping == result_word(resp.buf@, 10),
    {
        let r = AsusDpi2Data {
            dpi: [resp.word(2), resp.word(4)],
            rate_idx: resp.word(6),
            response_idx: resp.word(8),
            snapping: resp.word(10),
        };
        assert(r.dpi@ =~= seq![result_word(resp.buf@, 2), result_word(resp.buf@, 4)]);
        r
    }
}

/// The settings of a device with four DPI presets.
#[derive(Debug, Clone, Copy)]
pub struct AsusDpi4Data {
    pub dpi: [u16; 4],
    pub rate_idx: u16,
    pub response_idx: u16,
    pub snapping: u16,
}

impl AsusDpi4Data {
    pub fn from_response(resp: &AsusResponse) -> (r: Self)
        ensures
            r.dpi@ == seq![
                result_word(resp.buf@, 2),
                result_word(resp.buf@, 4),
                result_word(resp.buf@, 6),
                result_word(resp.buf@, 8),
            ],
            r.rate_idx == result_word(resp.buf@, 10),
            r.response_idx == result_word(resp.buf@, 12),
            r.snapping == result_word(resp.buf@, 14),
    {
        let r = AsusDpi4Data {
            dpi: [resp.word(2), resp.word(4), resp.word(6), resp.word(8)],
            rate_idx: resp.word(10),
            response_idx: resp.word(12),
            snapping: resp.word(14),
        };
        assert(r.dpi@ =~= seq![
            result_word(resp.buf@, 2),
            result_word(resp.buf@, 4),
            result_word(resp.buf@, 6),
            result_word(resp.buf@, 8),
        ]);
        r
    }
}

/// The DPI presets of a device whose axes differ, as pairs of X and Y.
#[derive(Debug, Clone, Copy)]
pub struct AsusDpiXyData {
    pub dpi: [(u16, u16); 4],
}

impl AsusDpiXyData {
    pub fn from_response(resp: &AsusResponse) -> (r: Self)
        ensures
            forall|i: int|
                0 <= i < 4 ==> #[trigger] r.dpi[i] == (
                    result_word(resp.buf@, 2 + i * 4),
                    result_word(resp.buf@, 4 + i * 4),
                ),
    {
        AsusDpiXyData {
            dpi: [
                (resp.word(2), resp.word(4)),
                (resp.word(6), resp.word(8)),
                (resp.word(10), resp.word(12)),
                (resp.word(14), resp.word(16)),
            ],
        }
    }
}

/// The state of an LED.
#[derive(Debug, Clone, Copy, PartialEq, Eq, Structural)]
pub struct AsusLedEntry {
    pub mode: u8,
    pub brightness: u8,
    pub r: u8,
    pub g: u8,
    pub b: u8,
}

/// The states of the LEDs in one answer.
#[derive(Debug, Clone, Copy)]
pub struct AsusLedData {
    pub leds: [AsusLedEntry; 3],
}

/// The LED at place `i` of an answer.
pub open spec fn led_at(buf: Seq<u8>, i: int) -> AsusLedEntry {
    AsusLedEntry {
        mode: result_byte(buf, 2 + i * 5),
        brightness: result_byte(buf, 3 + i * 5),
        r: result_byte(buf, 4 + i * 5),
        g: result_byte(buf, 5 + i * 5),
        b: result_byte(buf, 6 + i * 5),
    }
}

impl AsusLedData {
    pub fn from_response(resp: &AsusResponse) -> (r: Self)
        ensures
            forall|i: int| 0 <= i < 3 ==> #[trigger] r.leds[i] == led_at(resp.buf@, i),
    {
        let mut leds: [AsusLedEntry; 3] = [AsusLedEntry {
            mode: 0,
            brightness: 0,
            r: 0,
            g: 0,
            b: 0,
        }; 3];
        let mut i: usize = 0;
        while i < 3
            invariant
                i <= 3,
                forall|j: int| 0 <= j < i ==> #[trigger] leds[j] == led_at(resp.buf@, j),
            decreases 3 - i,
        {
            let base: usize = 2 + i * 5;
            leds[i] = AsusLedEntry {
                mode: resp.result(base),
                brightness: resp.result(base + 1),
                r: resp.result(base + 2),
                g: resp.result(base + 3),
                b: resp.result(base + 4),
            };
            i += 1;
        }
        AsusLedData { leds }
    }
}

/// What the answer to the profile query says.
#[derive(Debug, Clone, Copy, PartialEq, Eq)]
pub struct AsusProfileInfo {
    pub profile_id: u32,
    /// The DPI preset in use, counted from 0.
    pub dpi_preset: Option<u32>,
    /// Major, minor and build number.
    pub firmware_primary: (u8, u8, u8),
    pub firmware_secondary: (u8, u8, u8),
}

/// What the answer to the profile query says. Some devices (`strix`) have the
/// profile one byte earlier.
pub open spec fn profile_info(buf: Seq<u8>, strix: bool) -> AsusProfileInfo {
    AsusProfileInfo {
        profile_id: result_byte(
            buf,
            if strix {
                7
            } else {
                8
            },
        ) as u32,
        dpi_preset: if result_byte(buf, 9) > 0 {
            Some((result_byte(buf, 9) - 1) as u32)
        } else {
            None
        },
        firmware_primary: (result_byte(buf, 13), result_byte(buf, 12), result_byte(buf, 11)),
        firmware_secondary: (result_byte(buf, 4), result_byte(buf, 3), result_byte(buf, 2)),
    }
}

/// Reads the answer to the profile query.
pub fn parse_profile_info(resp: &AsusResponse, strix: bool) -> (r: AsusProfileInfo)
    ensures
        r == profile_info(resp.buf@, strix),
{
    AsusProfileInfo {
        profile_id: if strix {
            resp.result(7) as u32
        } else {
            resp.result(8) as u32
        },
        dpi_preset: if resp.result(9) > 0 {
            Some((resp.result(9) - 1) as u32)
        } else {
            None
        },
        firmware_primary: (resp.result(13), resp.result(12), resp.result(11)),
        firmware_secondary: (resp.result(4), resp.result(3), resp.result(2)),
    }
}

/// A parameter that is set is the one that the packet holds there, and setting
/// it changes nothing else.
pub proof fn parameters_are_independent(buf: Seq<u8>, i: int, j: int, val: u8)
    requires
        buf.len() == 64,
        0 <= i,
        0 <= j,
        i != j,
    ensures
        i < 62 ==> result_byte(with_param(buf, i, val), i) == val,
        result_byte(with_param(buf, i, val), j) == result_byte(buf, j),
        with_param(buf, i, val)[0] == buf[0],
        with_param(buf, i, val)[1] == buf[1],
{
}

} // verus!
