//! The layout of one onboard-profile sector.
//!
//! | bytes    | contents                                                   |
//! |----------|------------------------------------------------------------|
//! | 0        | report interval in ms, 0 if unset                          |
//! | 1        | index of the default DPI slot                              |
//! | 3 to 12  | five DPI values, least significant byte first              |
//! | 32 to 95 | sixteen button bindings of four bytes                      |
//! | 208 to 229 | two LED records of eleven bytes                          |
//! | the last two | checksum, most significant byte first                  |

use crate::bytes;
use crate::hal::hidpp;
use crate::hal::hidpp20::binding::Hidpp20ButtonBinding;
use crate::hal::hidpp20::error::HidppDriverError;
use vstd::prelude::*;

verus! {

pub const EEPROM_REPORT_INTERVAL_OFFSET: usize = 0;

pub const EEPROM_DEFAULT_DPI_OFFSET: usize = 1;

pub const EEPROM_DPI_OFFSET: usize = 3;

pub const EEPROM_DPI_COUNT: usize = 5;

pub const EEPROM_BUTTON_OFFSET: usize = 32;

pub const EEPROM_BUTTON_SIZE: usize = 4;

pub const EEPROM_MAX_BUTTONS: usize = 16;

pub const EEPROM_LED_OFFSET: usize = 208;

pub const EEPROM_LED_SIZE: usize = 11;

pub const EEPROM_LED_COUNT: usize = 2;

/// The length of the shortest sector that holds every slot.
pub const EEPROM_PROFILE_MIN_LEN: usize = 230;

/// The managed contents of a sector.
#[derive(Debug, Clone, PartialEq, Eq)]
pub struct EepromProfile {
    pub report_interval: u8,
    pub default_dpi_index: u8,
    pub dpis: Vec<u16>,
    pub buttons: Vec<Hidpp20ButtonBinding>,
    pub leds: Vec<[u8; 11]>,
}

/// The contents of an [`EepromProfile`]; bindings and LED records by their
/// bytes.
#[verifier::ext_equal]
pub struct EepromModel {
    pub report_interval: u8,
    pub default_dpi_index: u8,
    pub dpis: Seq<u16>,
    pub buttons: Seq<Seq<u8>>,
    pub leds: Seq<Seq<u8>>,
}

impl View for EepromProfile {
    type V = EepromModel;

    open spec fn view(&self) -> EepromModel {
        EepromModel {
            report_interval: self.report_interval,
            default_dpi_index: self.default_dpi_index,
            dpis: self.dpis@,
            buttons: self.buttons@.map_values(|b: Hidpp20ButtonBinding| b.wire()),
            leds: self.leds@.map_values(|l: [u8; 11]| l@),
        }
    }
}

/// How many button slots a sector has for a device of `count` buttons.
pub open spec fn button_slots(count: int) -> int {
    if count < EEPROM_MAX_BUTTONS {
        count
    } else {
        EEPROM_MAX_BUTTONS as int
    }
}

impl EepromModel {
    /// What the sector `s` of a device of `count` buttons holds.
    pub open spec fn read(s: Seq<u8>, count: int) -> EepromModel {
        EepromModel {
            report_interval: s[0],
            default_dpi_index: s[1],
            dpis: Seq::new(5, |i: int| bytes::be16(s[4 + 2 * i], s[3 + 2 * i])),
            buttons: Seq::new(
                button_slots(count) as nat,
                |b: int| s.subrange(32 + 4 * b, 36 + 4 * b),
            ),
            leds: Seq::new(2, |l: int| s.subrange(208 + 11 * l, 219 + 11 * l)),
        }
    }

    /// Whether the contents fill the slots of a device of `count` buttons.
    pub open spec fn fills(self, count: int) -> bool {
        &&& self.dpis.len() == 5
        &&& self.buttons.len() == button_slots(count)
        &&& forall|b: int| 0 <= b < self.buttons.len() ==> (#[trigger] self.buttons[b]).len() == 4
        &&& self.leds.len() == 2
        &&& forall|l: int| 0 <= l < self.leds.len() ==> (#[trigger] self.leds[l]).len() == 11
    }

    /// The byte at position `i` of a sector once these contents are written
    /// over a sector that holds `old` there.
    pub open spec fn byte(self, i: int, old: u8) -> u8 {
        if i == 0 {
            self.report_interval
        } else if i == 1 {
            self.default_dpi_index
        } else if 3 <= i < 13 && (i - 3) / 2 < self.dpis.len() {
            bytes::le_bytes(self.dpis[(i - 3) / 2])[(i - 3) % 2]
        } else if 32 <= i < 96 && (i - 32) / 4 < self.buttons.len() {
            self.buttons[(i - 32) / 4][(i - 32) % 4]
        } else if 208 <= i < 230 && (i - 208) / 11 < self.leds.len() {
            self.leds[(i - 208) / 11][(i - 208) % 11]
        } else {
            old
        }
    }

    /// The sector `s` with these contents written over it.
    pub open spec fn written(self, s: Seq<u8>) -> Seq<u8> {
        Seq::new(s.len(), |i: int| self.byte(i, s[i]))
    }
}

/// Whether a position of the sector belongs to none of the slots.
pub open spec fn unmanaged(i: int) -> bool {
    i == 2 || 13 <= i < 32 || 96 <= i < 208 || 230 <= i
}

impl EepromProfile {
    /// Whether a sector of `len` bytes holds every slot.
    pub fn check_layout(len: usize) -> (r: Result<(), HidppDriverError>)
        ensures
            r is Ok <==> len >= EEPROM_PROFILE_MIN_LEN,
            r is Err ==> r->Err_0 == (HidppDriverError::BufferUnderflow {
                expected: EEPROM_PROFILE_MIN_LEN,
                received: len,
            }),
    {
        if len < EEPROM_PROFILE_MIN_LEN {
            return Err(
                HidppDriverError::BufferUnderflow { expected: EEPROM_PROFILE_MIN_LEN, received: len },
            );
        }
        Ok(())
    }

    /// Reads the slots of a sector. A sector that is too short is rejected as
    /// a whole.
    pub fn from_bytes(data: &[u8], button_count: usize) -> (r: Result<Self, HidppDriverError>)
        ensures
            r is Ok <==> data@.len() >= EEPROM_PROFILE_MIN_LEN,
            r is Ok ==> r->Ok_0@ == EepromModel::read(data@, button_count as int),
            r is Ok ==> r->Ok_0@.fills(button_count as int),
            r is Err ==> r->Err_0 == (HidppDriverError::BufferUnderflow {
                expected: EEPROM_PROFILE_MIN_LEN,
                received: data.len(),
            }),
    {
        match EepromProfile::check_layout(data.len()) {
            Ok(_) => {},
            Err(e) => {
                return Err(e);
            },
        }
        let mut dpis: Vec<u16> = Vec::new();
        let mut i: usize = 0;
        while i < EEPROM_DPI_COUNT
            invariant
                i <= 5,
                data@.len() >= 230,
                dpis@ == EepromModel::read(data@, button_count as int).dpis.subrange(0, i as int),
            decreases 5 - i,
        {
            let off: usize = EEPROM_DPI_OFFSET + i * 2;
            dpis.push(bytes::u16_from(data[off + 1], data[off]));
            i += 1;
            assert(dpis@ =~= EepromModel::read(data@, button_count as int).dpis.subrange(
                0,
                i as int,
            ));
        }
        let slots: usize = if button_count < EEPROM_MAX_BUTTONS {
            button_count
        } else {
            EEPROM_MAX_BUTTONS
        };
        let mut buttons: Vec<Hidpp20ButtonBinding> = Vec::new();
        let mut b: usize = 0;
        while b < slots
            invariant
                b <= slots <= 16,
                slots == button_slots(button_count as int),
                data@.len() >= 230,
                buttons@.len() == b,
                forall|k: int|
                    0 <= k < b ==> (#[trigger] buttons@[k]).wire() == data@.subrange(
                        32 + 4 * k,
                        36 + 4 * k,
                    ),
            decreases slots - b,
        {
            let off: usize = EEPROM_BUTTON_OFFSET + b * EEPROM_BUTTON_SIZE;
            let raw: [u8; 4] = [data[off], data[off + 1], data[off + 2], data[off + 3]];
            assert(raw@ =~= data@.subrange(32 + 4 * b, 36 + 4 * b));
            buttons.push(Hidpp20ButtonBinding::from_bytes(&raw));
            b += 1;
        }
        let mut leds: Vec<[u8; 11]> = Vec::new();
        let mut l: usize = 0;
        while l < EEPROM_LED_COUNT
            invariant
                l <= 2,
                data@.len() >= 230,
                leds@.len() == l,
                forall|k: int|
                    0 <= k < l ==> (#[trigger] leds@[k])@ == data@.subrange(
                        208 + 11 * k,
                        219 + 11 * k,
                    ),
            decreases 2 - l,
        {
            let off: usize = EEPROM_LED_OFFSET + l * EEPROM_LED_SIZE;
            let raw: [u8; 11] = [
                data[off],
                data[off + 1],
                data[off + 2],
                data[off + 3],
                data[off + 4],
                data[off + 5],
                data[off + 6],
                data[off + 7],
                data[off + 8],
                data[off + 9],
                data[off + 10],
            ];
            assert(raw@ =~= data@.subrange(208 + 11 * l, 219 + 11 * l));
            leds.push(raw);
            l += 1;
        }
        let r = EepromProfile {
            report_interval: data[EEPROM_REPORT_INTERVAL_OFFSET],
            default_dpi_index: data[EEPROM_DEFAULT_DPI_OFFSET],
            dpis,
            buttons,
            leds,
        };
        assert(r@ =~~= EepromModel::read(data@, button_count as int));
        Ok(r)
    }

    /// Writes the slots into a sector and leaves the rest of it alone. A
    /// sector that is too short is left alone altogether.
    pub fn write_into(&self, data: &mut Vec<u8>) -> (r: Result<(), HidppDriverError>)
        ensures
            r is Ok <==> old(data)@.len() >= EEPROM_PROFILE_MIN_LEN,
            r is Ok ==> final(data)@ == self@.written(old(data)@),
            r is Err ==> final(data)@ == old(data)@,
            r is Err ==> r->Err_0 == (HidppDriverError::BufferUnderflow {
                expected: EEPROM_PROFILE_MIN_LEN,
                received: old(data).len(),
            }),
    {
        match EepromProfile::check_layout(data.len()) {
            Ok(_) => {},
            Err(e) => {
                return Err(e);
            },
        }
        let ghost target = self@.written(old(data)@);
        data[EEPROM_REPORT_INTERVAL_OFFSET] = self.report_interval;
        data[EEPROM_DEFAULT_DPI_OFFSET] = self.default_dpi_index;
        let mut i: usize = 0;
        while i < self.dpis.len() && i < EEPROM_DPI_COUNT
            invariant
                i <= self.dpis@.len(),
                i <= 5,
                target == self@.written(old(data)@),
                data@.len() == old(data)@.len() >= 230,
                forall|k: int| 0 <= k < 3 + 2 * i ==> data@[k] == #[trigger] target[k],
                forall|k: int| 3 + 2 * i <= k < data@.len() ==> data@[k] == #[trigger] old(data)@[k],
            decreases 5 - i,
        {
            let off: usize = EEPROM_DPI_OFFSET + i * 2;
            data[off] = bytes::low_byte(self.dpis[i]);
            data[off + 1] = bytes::high_byte(self.dpis[i]);
            i += 1;
        }
        assert(forall|k: int| 0 <= k < 32 ==> data@[k] == #[trigger] target[k]);
        let mut b: usize = 0;
        while b < self.buttons.len() && b < EEPROM_MAX_BUTTONS
            invariant
                b <= self.buttons@.len(),
                b <= 16,
                target == self@.written(old(data)@),
                data@.len() == old(data)@.len() >= 230,
                forall|k: int| 0 <= k < 32 + 4 * b ==> data@[k] == #[trigger] target[k],
                forall|k: int|
                    32 + 4 * b <= k < data@.len() ==> data@[k] == #[trigger] old(data)@[k],
            decreases 16 - b,
        {
            let off: usize = EEPROM_BUTTON_OFFSET + b * EEPROM_BUTTON_SIZE;
            let raw: [u8; 4] = self.buttons[b].into_bytes();
            assert(raw@ == self@.buttons[b as int]);
            bytes::put(data, off, raw.as_slice());
            b += 1;
        }
        assert(forall|k: int| 0 <= k < 208 ==> data@[k] == #[trigger] target[k]);
        let mut l: usize = 0;
        while l < self.leds.len() && l < EEPROM_LED_COUNT
            invariant
                l <= self.leds@.len(),
                l <= 2,
                target == self@.written(old(data)@),
                data@.len() == old(data)@.len() >= 230,
                forall|k: int| 0 <= k < 208 + 11 * l ==> data@[k] == #[trigger] target[k],
                forall|k: int|
                    208 + 11 * l <= k < data@.len() ==> data@[k] == #[trigger] old(data)@[k],
            decreases 2 - l,
        {
            let off: usize = EEPROM_LED_OFFSET + l * EEPROM_LED_SIZE;
            let raw: [u8; 11] = self.leds[l];
            assert(raw@ == self@.leds[l as int]);
            bytes::put(data, off, raw.as_slice());
            l += 1;
        }
        assert(data@ =~= target);
        Ok(())
    }
}

impl Default for EepromProfile {
    fn default() -> (r: Self)
        ensures
            r@ == (EepromModel {
                report_interval: 0,
                default_dpi_index: 0,
                dpis: Seq::empty(),
                buttons: Seq::empty(),
                leds: Seq::empty(),
            }),
    {
        let r = EepromProfile {
            report_interval: 0,
            default_dpi_index: 0,
            dpis: Vec::new(),
            buttons: Vec::new(),
            leds: Vec::new(),
        };
        assert(r@ =~~= (EepromModel {
            report_interval: 0,
            default_dpi_index: 0,
            dpis: Seq::empty(),
            buttons: Seq::empty(),
            leds: Seq::empty(),
        }));
        r
    }
}

/// Contents that were written to a sector are read back from it.
pub proof fn eeprom_read_gives_back_write(m: EepromModel, s: Seq<u8>, count: int)
    requires
        0 <= count,
        s.len() >= EEPROM_PROFILE_MIN_LEN,
        m.fills(count),
    ensures
        EepromModel::read(m.written(s), count) == m,
{
    let w = m.written(s);
    let r = EepromModel::read(w, count);
    assert forall|i: int| 0 <= i < 5 implies r.dpis[i] == m.dpis[i] by {
        bytes::bytes_round_trip(m.dpis[i], 0, 0);
        assert(w[3 + 2 * i] == bytes::le_bytes(m.dpis[i])[0]);
        assert(w[4 + 2 * i] == bytes::le_bytes(m.dpis[i])[1]);
    }
    assert forall|b: int| 0 <= b < m.buttons.len() implies r.buttons[b] == m.buttons[b] by {
        assert forall|k: int| 0 <= k < 4 implies r.buttons[b][k] == m.buttons[b][k] by {
            assert(w[32 + 4 * b + k] == m.buttons[b][k]);
        }
        assert(r.buttons[b] =~= m.buttons[b]);
    }
    assert forall|l: int| 0 <= l < 2 implies r.leds[l] == m.leds[l] by {
        assert forall|k: int| 0 <= k < 11 implies r.leds[l][k] == m.leds[l][k] by {
            assert(w[208 + 11 * l + k] == m.leds[l][k]);
        }
        assert(r.leds[l] =~= m.leds[l]);
    }
    assert(r =~= m);
}

/// Writing back what was read from a sector changes nothing.
pub proof fn eeprom_write_of_read_is_identity(s: Seq<u8>, count: int)
    requires
        0 <= count,
        s.len() >= EEPROM_PROFILE_MIN_LEN,
    ensures
        EepromModel::read(s, count).written(s) == s,
{
    let m = EepromModel::read(s, count);
    assert forall|i: int| 0 <= i < s.len() implies m.written(s)[i] == s[i] by {
        if 3 <= i < 13 {
            let k = (i - 3) / 2;
            bytes::bytes_round_trip(0, s[4 + 2 * k], s[3 + 2 * k]);
        }
    }
    assert(m.written(s) =~= s);
}

/// Writing touches no byte outside the slots, and keeps the length.
pub proof fn eeprom_write_keeps_unmanaged_bytes(m: EepromModel, s: Seq<u8>, i: int)
    requires
        0 <= i < s.len(),
        unmanaged(i),
    ensures
        m.written(s).len() == s.len(),
        m.written(s)[i] == s[i],
{
}

/// Of two contents of the same shape written in a row, the second remains.
pub proof fn eeprom_last_write_wins(a: EepromModel, b: EepromModel, s: Seq<u8>, count: int)
    requires
        a.fills(count),
        b.fills(count),
    ensures
        b.written(a.written(s)) == b.written(s),
{
    assert(b.written(a.written(s)) =~= b.written(s));
}

/// The checksum that the last two bytes of a sector hold.
pub open spec fn stored_crc(s: Seq<u8>) -> u16 {
    bytes::be16(s[s.len() - 2], s[s.len() - 1])
}

/// The checksum of a sector without its last two bytes.
pub open spec fn body_crc(s: Seq<u8>) -> u16 {
    hidpp::crc_ccitt(s.subrange(0, s.len() - 2))
}

/// The sector with its checksum brought up to date.
pub open spec fn sealed(s: Seq<u8>) -> Seq<u8> {
    bytes::spliced(s, s.len() - 2, bytes::be_bytes(body_crc(s)))
}

/// Checks the checksum of a sector.
pub fn verify_sector_crc(sector: u16, data: &[u8]) -> (r: Result<(), HidppDriverError>)
    ensures
        r is Ok <==> data@.len() >= 2 && stored_crc(data@) == body_crc(data@),
        r is Err ==> r->Err_0 == (if data@.len() < 2 {
            HidppDriverError::BufferUnderflow { expected: 2, received: data.len() }
        } else {
            HidppDriverError::CrcMismatch {
                sector,
                expected: body_crc(data@),
                received: stored_crc(data@),
            }
        }),
{
    if data.len() < 2 {
        return Err(HidppDriverError::BufferUnderflow { expected: 2, received: data.len() });
    }
    let crc_offset: usize = data.len() - 2;
    let computed: u16 = hidpp::compute_ccitt_crc(vstd::slice::slice_subrange(data, 0, crc_offset));
    let stored: u16 = bytes::u16_from(data[crc_offset], data[crc_offset + 1]);
    if computed != stored {
        return Err(
            HidppDriverError::CrcMismatch { sector, expected: computed, received: stored },
        );
    }
    Ok(())
}

/// Brings the checksum of a sector up to date.
pub fn seal_sector(data: &mut Vec<u8>)
    requires
        old(data)@.len() >= 2,
    ensures
        final(data)@ == sealed(old(data)@),
{
    let crc_offset: usize = data.len() - 2;
    let crc: u16 = hidpp::compute_ccitt_crc(
        vstd::slice::slice_subrange(data.as_slice(), 0, crc_offset),
    );
    data[crc_offset] = bytes::high_byte(crc);
    data[crc_offset + 1] = bytes::low_byte(crc);
    assert(data@ =~= sealed(old(data)@));
}

/// A sealed sector passes the check, and differs from what it was only in its
/// last two bytes.
pub proof fn sealed_sector_is_valid(s: Seq<u8>)
    requires
        s.len() >= 2,
    ensures
        sealed(s).len() == s.len(),
        stored_crc(sealed(s)) == body_crc(sealed(s)),
        sealed(s).subrange(0, s.len() - 2) == s.subrange(0, s.len() - 2),
        sealed(sealed(s)) == sealed(s),
{
    assert(sealed(s).subrange(0, s.len() - 2) =~= s.subrange(0, s.len() - 2));
    bytes::bytes_round_trip(body_crc(s), 0, 0);
    assert(sealed(sealed(s)) =~= sealed(s));
}

} // verus!
