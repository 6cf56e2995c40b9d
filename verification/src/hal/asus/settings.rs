//! The numbers that a device stores for resolution, brightness, polling rate
//! and debounce time, and the quirks that change them.

use crate::engine::device::LedMode;
use crate::text;
use vstd::prelude::*;

verus! {

/// The device stores half of each DPI value.
pub const ASUS_QUIRK_DOUBLE_DPI: u32 = 1;

/// The device reports its profile one byte earlier.
pub const ASUS_QUIRK_STRIX_PROFILE: u32 = 2;

/// The device reports its battery in another form.
pub const ASUS_QUIRK_BATTERY_V2: u32 = 4;

/// The device stores brightness as a byte.
pub const ASUS_QUIRK_RAW_BRIGHTNESS: u32 = 8;

/// The device has a resolution for each axis.
pub const ASUS_QUIRK_SEPARATE_XY_DPI: u32 = 16;

/// The device answers for one LED at a time.
pub const ASUS_QUIRK_SEPARATE_LEDS: u32 = 32;

/// The device has a second group of buttons.
pub const ASUS_QUIRK_BUTTONS_SECONDARY: u32 = 64;

/// The bit of a quirk; 0 for a name that stands for none.
pub open spec fn quirk_bit(name: Seq<char>) -> u32 {
    if name == "DOUBLE_DPI"@ {
        ASUS_QUIRK_DOUBLE_DPI
    } else if name == "STRIX_PROFILE"@ {
        ASUS_QUIRK_STRIX_PROFILE
    } else if name == "BATTERY_V2"@ {
        ASUS_QUIRK_BATTERY_V2
    } else if name == "RAW_BRIGHTNESS"@ {
        ASUS_QUIRK_RAW_BRIGHTNESS
    } else if name == "SEPARATE_XY_DPI"@ {
        ASUS_QUIRK_SEPARATE_XY_DPI
    } else if name == "SEPARATE_LEDS"@ {
        ASUS_QUIRK_SEPARATE_LEDS
    } else if name == "BUTTONS_SECONDARY"@ {
        ASUS_QUIRK_BUTTONS_SECONDARY
    } else {
        0
    }
}

/// Whether a number is the bit of a quirk.
pub open spec fn is_quirk(bit: u32) -> bool {
    bit == 1 || bit == 2 || bit == 4 || bit == 8 || bit == 16 || bit == 32 || bit == 64
}

/// Whether a list of names holds the name of a quirk.
pub open spec fn names_quirk(names: Seq<Seq<char>>, bit: u32) -> bool {
    exists|i: int| 0 <= i < names.len() && quirk_bit(#[trigger] names[i]) == bit
}

/// Whether a mask has a quirk.
pub open spec fn quirky(quirks: u32, quirk: u32) -> bool {
    quirks & quirk != 0
}

fn bit_of(name: &str) -> (r: u32)
    ensures
        r == quirk_bit(name@),
{
    if text::str_eq(name, "DOUBLE_DPI") {
        ASUS_QUIRK_DOUBLE_DPI
    } else if text::str_eq(name, "STRIX_PROFILE") {
        ASUS_QUIRK_STRIX_PROFILE
    } else if text::str_eq(name, "BATTERY_V2") {
        ASUS_QUIRK_BATTERY_V2
    } else if text::str_eq(name, "RAW_BRIGHTNESS") {
        ASUS_QUIRK_RAW_BRIGHTNESS
    } else if text::str_eq(name, "SEPARATE_XY_DPI") {
        ASUS_QUIRK_SEPARATE_XY_DPI
    } else if text::str_eq(name, "SEPARATE_LEDS") {
        ASUS_QUIRK_SEPARATE_LEDS
    } else if text::str_eq(name, "BUTTONS_SECONDARY") {
        ASUS_QUIRK_BUTTONS_SECONDARY
    } else {
        0
    }
}

proof fn lemma_add_quirk(q: u32, b: u32, c: u32)
    by (bit_vector)
    requires
        q < 128,
        b == 0 || b == 1 || b == 2 || b == 4 || b == 8 || b == 16 || b == 32 || b == 64,
        c == 1 || c == 2 || c == 4 || c == 8 || c == 16 || c == 32 || c == 64,
    ensures
        (q | b) < 128,
        ((q | b) & c != 0) == ((q & c != 0) || b == c),
{
}

proof fn lemma_no_quirk(c: u32)
    by (bit_vector)
    ensures
        0u32 & c == 0,
{
}

/// The mask of the quirks that a list names. Names that stand for none are
/// passed over.
pub fn parse_quirks(quirk_strings: &Vec<String>) -> (r: u32)
    ensures
        r < 128,
        forall|bit: u32|
            is_quirk(bit) ==> #[trigger] quirky(r, bit) == names_quirk(
                text::strings_view(quirk_strings@),
                bit,
            ),
{
    let mut q: u32 = 0;
    let ghost names = text::strings_view(quirk_strings@);
    assert forall|bit: u32| is_quirk(bit) implies #[trigger] quirky(q, bit) == names_quirk(
        names.take(0),
        bit,
    ) by {
        lemma_no_quirk(bit);
    }
    let mut i: usize = 0;
    while i < quirk_strings.len()
        invariant
            i <= quirk_strings@.len(),
            names == text::strings_view(quirk_strings@),
            q < 128,
            forall|bit: u32|
                is_quirk(bit) ==> #[trigger] quirky(q, bit) == names_quirk(names.take(i as int), bit),
        decreases quirk_strings@.len() - i,
    {
        let b: u32 = bit_of(quirk_strings[i].as_str());
        let ghost before = q;
        q = q | b;
        proof {
            lemma_add_quirk(before, b, 1);
            assert forall|bit: u32| is_quirk(bit) implies #[trigger] quirky(q, bit) == names_quirk(
                names.take(i + 1),
                bit,
            ) by {
                lemma_add_quirk(before, b, bit);
                assert(quirky(before, bit) == names_quirk(names.take(i as int), bit));
                let earlier = names.take(i as int);
                let now = names.take(i + 1);
                assert(now[i as int] == names[i as int]);
                assert(quirk_bit(now[i as int]) == b);
                if names_quirk(earlier, bit) {
                    let k = choose|k: int|
                        0 <= k < earlier.len() && quirk_bit(#[trigger] earlier[k]) == bit;
                    assert(now[k] == earlier[k]);
                }
                if names_quirk(now, bit) && b != bit {
                    let k = choose|k: int|
                        0 <= k < now.len() && quirk_bit(#[trigger] now[k]) == bit;
                    assert(earlier[k] == now[k]);
                }
            }
        }
        i += 1;
    }
    assert(names.take(i as int) =~= names);
    q
}

/// The DPI value that a stored number stands for: 50 for each step above the
/// first 50, twice that with the `DOUBLE_DPI` quirk.
pub open spec fn dpi_of_stored(stored: u16, quirks: u32) -> int {
    if quirky(quirks, ASUS_QUIRK_DOUBLE_DPI) {
        2 * (stored * 50 + 50)
    } else {
        stored * 50 + 50
    }
}

pub fn dpi_from_stored(stored: u16, quirks: u32) -> (r: u32)
    ensures
        r == dpi_of_stored(stored, quirks),
{
    let mut val: u32 = (stored as u32) * 50 + 50;
    if quirks & ASUS_QUIRK_DOUBLE_DPI != 0 {
        val = val * 2;
    }
    val
}

/// The number that is stored for a DPI value: the step at or below it, between
/// the first and the last of 256.
pub open spec fn stored_of_dpi(dpi: u32, quirks: u32) -> int {
    let adjusted: int = if quirky(quirks, ASUS_QUIRK_DOUBLE_DPI) {
        dpi as int / 2
    } else {
        dpi as int
    };
    if adjusted < 50 {
        0
    } else if (adjusted - 50) / 50 > 255 {
        255
    } else {
        (adjusted - 50) / 50
    }
}

pub fn dpi_to_stored(dpi: u32, quirks: u32) -> (r: u8)
    ensures
        r == stored_of_dpi(dpi, quirks),
{
    let adjusted: u32 = if quirks & ASUS_QUIRK_DOUBLE_DPI != 0 {
        dpi / 2
    } else {
        dpi
    };
    if adjusted < 50 {
        0
    } else {
        let step: u32 = (adjusted - 50) / 50;
        if step > 255 {
            255
        } else {
            step as u8
        }
    }
}

/// A DPI value that was read from a stored byte is stored as that byte again.
pub proof fn stored_dpi_round_trip(stored: u8, quirks: u32)
    ensures
        dpi_of_stored(stored as u16, quirks) <= u32::MAX,
        stored_of_dpi(dpi_of_stored(stored as u16, quirks) as u32, quirks) == stored,
{
}

/// A DPI value on one of the device's steps comes back as it was written.
pub proof fn dpi_round_trip(dpi: u32, quirks: u32)
    requires
        quirky(quirks, ASUS_QUIRK_DOUBLE_DPI) ==> dpi % 100 == 0 && 100 <= dpi <= 25600,
        !quirky(quirks, ASUS_QUIRK_DOUBLE_DPI) ==> dpi % 50 == 0 && 50 <= dpi <= 12800,
    ensures
        dpi_of_stored(stored_of_dpi(dpi, quirks) as u16, quirks) == dpi,
{
}

/// The brightness that a stored byte stands for: 64 for each step, or the byte
/// itself with the `RAW_BRIGHTNESS` quirk.
pub open spec fn brightness_of_raw(raw: u8, quirks: u32) -> int {
    if quirky(quirks, ASUS_QUIRK_RAW_BRIGHTNESS) {
        raw as int
    } else {
        raw * 64
    }
}

pub fn brightness_to_ratbag(raw: u8, quirks: u32) -> (r: u32)
    ensures
        r == brightness_of_raw(raw, quirks),
{
    if quirks & ASUS_QUIRK_RAW_BRIGHTNESS != 0 {
        raw as u32
    } else {
        (raw as u32) * 64
    }
}

/// The byte that is stored for a brightness: the nearest step of at most 4, or
/// the brightness itself, at most 255, with the `RAW_BRIGHTNESS` quirk.
pub open spec fn raw_of_brightness(ratbag: u32, quirks: u32) -> int {
    if quirky(quirks, ASUS_QUIRK_RAW_BRIGHTNESS) {
        if ratbag > 255 {
            255
        } else {
            ratbag as int
        }
    } else if (ratbag + 32) / 64 > 4 {
        4
    } else {
        (ratbag + 32) / 64
    }
}

pub fn brightness_to_asus(ratbag: u32, quirks: u32) -> (r: u8)
    requires
        !quirky(quirks, ASUS_QUIRK_RAW_BRIGHTNESS) ==> ratbag + 32 <= u32::MAX,
    ensures
        r == raw_of_brightness(ratbag, quirks),
{
    if quirks & ASUS_QUIRK_RAW_BRIGHTNESS != 0 {
        if ratbag > 255 {
            255
        } else {
            ratbag as u8
        }
    } else {
        let step: u32 = (ratbag + 32) / 64;
        if step > 4 {
            4
        } else {
            step as u8
        }
    }
}

/// A stored brightness is stored as it was read, and a brightness of up to 256
/// comes back within half a step.
pub proof fn brightness_round_trip(raw: u8, ratbag: u32, quirks: u32)
    requires
        raw <= 4 || quirky(quirks, ASUS_QUIRK_RAW_BRIGHTNESS),
        ratbag <= 255 || (ratbag == 256 && !quirky(quirks, ASUS_QUIRK_RAW_BRIGHTNESS)),
    ensures
        raw_of_brightness(brightness_of_raw(raw, quirks) as u32, quirks) == raw,
        ({
            let back = brightness_of_raw(raw_of_brightness(ratbag, quirks) as u8, quirks);
            if quirky(quirks, ASUS_QUIRK_RAW_BRIGHTNESS) {
                back == ratbag
            } else {
                ratbag - 32 < back <= ratbag + 32
            }
        }),
{
}

/// The polling rates that devices have, in Hz.
pub open spec fn polling_rates() -> Seq<u32> {
    seq![125u32, 250, 500, 1000]
}

/// The polling rates in Hz that the device offers.
pub fn polling_rate_list() -> (r: Vec<u32>)
    ensures
        r@ == polling_rates(),
{
    let r: Vec<u32> = vec![125, 250, 500, 1000];
    assert(r@ =~= polling_rates());
    r
}

/// The place of a polling rate among those that devices have.
pub fn polling_rate_index(hz: u32) -> (r: Option<u8>)
    ensures
        r is Some <==> polling_rates().contains(hz),
        r matches Some(i) ==> i < 4 && polling_rates()[i as int] == hz,
{
    assert(polling_rates()[0] == 125 && polling_rates()[1] == 250 && polling_rates()[2] == 500
        && polling_rates()[3] == 1000);
    match hz {
        125 => Some(0),
        250 => Some(1),
        500 => Some(2),
        1000 => Some(3),
        _ => None,
    }
}

/// The debounce times that devices have, in milliseconds.
pub open spec fn debounce_times() -> Seq<u32> {
    seq![4u32, 8, 12, 16, 20, 24, 28, 32]
}

pub(crate) fn debounce_time_list() -> (r: Vec<u32>)
    ensures
        r@ == debounce_times(),
{
    let r: Vec<u32> = vec![4, 8, 12, 16, 20, 24, 28, 32];
    assert(r@ =~= debounce_times());
    r
}

/// The place of a debounce time among those that devices have.
pub fn debounce_index(ms: u32) -> (r: Option<u8>)
    ensures
        r is Some <==> debounce_times().contains(ms),
        r matches Some(i) ==> i < 8 && debounce_times()[i as int] == ms,
{
    assert(debounce_times()[0] == 4 && debounce_times()[1] == 8 && debounce_times()[2] == 12
        && debounce_times()[3] == 16 && debounce_times()[4] == 20 && debounce_times()[5] == 24
        && debounce_times()[6] == 28 && debounce_times()[7] == 32);
    match ms {
        4 => Some(0),
        8 => Some(1),
        12 => Some(2),
        16 => Some(3),
        20 => Some(4),
        24 => Some(5),
        28 => Some(6),
        32 => Some(7),
        _ => None,
    }
}

/// The LED mode that a name stands for, whatever the case of its letters; an
/// unknown name stands for a steady light.
pub open spec fn led_mode_named(s: Seq<char>) -> LedMode {
    if text::same_ignoring_case(s, "ON"@) || text::same_ignoring_case(s, "SOLID"@) {
        LedMode::Solid
    } else if text::same_ignoring_case(s, "BREATHING"@) {
        LedMode::Breathing
    } else if text::same_ignoring_case(s, "CYCLE"@) {
        LedMode::Cycle
    } else if text::same_ignoring_case(s, "OFF"@) {
        LedMode::Off
    } else if text::same_ignoring_case(s, "COLORWAVE"@) {
        LedMode::ColorWave
    } else {
        LedMode::Solid
    }
}

pub fn parse_led_mode_str(s: &str) -> (r: LedMode)
    ensures
        r == led_mode_named(s@),
{
    if text::eq_ignore_case(s, "ON") || text::eq_ignore_case(s, "SOLID") {
        LedMode::Solid
    } else if text::eq_ignore_case(s, "BREATHING") {
        LedMode::Breathing
    } else if text::eq_ignore_case(s, "CYCLE") {
        LedMode::Cycle
    } else if text::eq_ignore_case(s, "OFF") {
        LedMode::Off
    } else if text::eq_ignore_case(s, "COLORWAVE") {
        LedMode::ColorWave
    } else {
        LedMode::Solid
    }
}

} // verus!
