//! LED records: eleven bytes, of which the first names the effect and the
//! others hold its parameters.

use crate::bytes;
use crate::engine::device::{Color, LedInfo, LedMode, LedModel, RgbColor};
use crate::hal::hidpp::{
    LED_HW_MODE_BREATHING, LED_HW_MODE_COLOR_WAVE, LED_HW_MODE_CYCLE, LED_HW_MODE_FIXED,
    LED_HW_MODE_OFF, LED_HW_MODE_STARLIGHT, LED_HW_MODE_TRICOLOR,
};
use vstd::prelude::*;

verus! {

/// An LED that is off, with nothing known about it.
pub open spec fn dark_led(index: int) -> LedModel {
    LedModel {
        index: index as u32,
        mode: LedMode::Off,
        modes: Seq::empty(),
        color: Color::black(),
        secondary_color: Color::black(),
        tertiary_color: Color::black(),
        color_depth: 0,
        effect_duration: 0,
        brightness: 0,
    }
}

/// The colour that three bytes hold.
pub open spec fn color_at(s: Seq<u8>, i: int) -> Color {
    Color { red: s[i] as u32, green: s[i + 1] as u32, blue: s[i + 2] as u32 }
}

/// A brightness of 0 to 255 for one in percent.
pub open spec fn brightness_of_percent(percent: u8) -> u32 {
    (percent * 255 / 100) as u32
}

/// The LED that a record stands for.
pub open spec fn led_of_bytes(s: Seq<u8>, index: int) -> LedModel {
    let dark = dark_led(index);
    if s.len() < 11 {
        dark
    } else if s[0] == LED_HW_MODE_FIXED {
        LedModel { mode: LedMode::Solid, color: color_at(s, 1), ..dark }
    } else if s[0] == LED_HW_MODE_CYCLE || s[0] == LED_HW_MODE_COLOR_WAVE {
        LedModel {
            mode: if s[0] == LED_HW_MODE_CYCLE {
                LedMode::Cycle
            } else {
                LedMode::ColorWave
            },
            effect_duration: bytes::be16(s[6], s[7]) as u32,
            brightness: brightness_of_percent(s[8]),
            ..dark
        }
    } else if s[0] == LED_HW_MODE_STARLIGHT {
        LedModel {
            mode: LedMode::Starlight,
            color: color_at(s, 1),
            secondary_color: color_at(s, 4),
            ..dark
        }
    } else if s[0] == LED_HW_MODE_BREATHING {
        LedModel {
            mode: LedMode::Breathing,
            color: color_at(s, 1),
            effect_duration: bytes::be16(s[4], s[5]) as u32,
            brightness: brightness_of_percent(s[7]),
            ..dark
        }
    } else {
        dark
    }
}

fn read_color(s: &[u8], i: usize) -> (r: Color)
    requires
        i + 2 < s@.len(),
    ensures
        r == color_at(s@, i as int),
{
    Color::from_rgb(RgbColor { r: s[i], g: s[i + 1], b: s[i + 2] })
}

/// Reads an LED record.
pub fn parse_eeprom_led(led_bytes: &[u8], led_index: usize) -> (r: LedInfo)
    ensures
        r@ == led_of_bytes(led_bytes@, led_index as int),
{
    let mut led = LedInfo {
        index: led_index as u32,
        mode: LedMode::Off,
        modes: Vec::new(),
        color: Color::default(),
        secondary_color: Color::default(),
        tertiary_color: Color::default(),
        color_depth: 0,
        effect_duration: 0,
        brightness: 0,
    };
    if led_bytes.len() < 11 {
        return led;
    }
    let mode_byte: u8 = led_bytes[0];
    if mode_byte == LED_HW_MODE_FIXED {
        led.mode = LedMode::Solid;
        led.color = read_color(led_bytes, 1);
    } else if mode_byte == LED_HW_MODE_CYCLE {
        led.mode = LedMode::Cycle;
        led.effect_duration = bytes::u16_from(led_bytes[6], led_bytes[7]) as u32;
        led.brightness = led_bytes[8] as u32 * 255 / 100;
    } else if mode_byte == LED_HW_MODE_COLOR_WAVE {
        led.mode = LedMode::ColorWave;
        led.effect_duration = bytes::u16_from(led_bytes[6], led_bytes[7]) as u32;
        led.brightness = led_bytes[8] as u32 * 255 / 100;
    } else if mode_byte == LED_HW_MODE_STARLIGHT {
        led.mode = LedMode::Starlight;
        led.color = read_color(led_bytes, 1);
        led.secondary_color = read_color(led_bytes, 4);
    } else if mode_byte == LED_HW_MODE_BREATHING {
        led.mode = LedMode::Breathing;
        led.color = read_color(led_bytes, 1);
        led.effect_duration = bytes::u16_from(led_bytes[4], led_bytes[5]) as u32;
        led.brightness = led_bytes[7] as u32 * 255 / 100;
    }
    led
}

/// Three bytes for a colour.
pub open spec fn color_bytes(c: Color) -> Seq<u8> {
    seq![c.rgb().r, c.rgb().g, c.rgb().b]
}

/// A brightness in percent for one of 0 to 255; of a larger one the low eight
/// bits of the percentage are kept.
pub open spec fn percent_of_brightness(brightness: u32) -> u8 {
    ((brightness * 100 / 255) as u32) as u8
}

/// The record that stands for an LED.
pub open spec fn bytes_of_led(led: LedModel) -> Seq<u8> {
    let zeros5 = bytes::filled(5, 0);
    match led.mode {
        LedMode::Solid => seq![LED_HW_MODE_FIXED] + color_bytes(led.color) + bytes::filled(7, 0),
        LedMode::Cycle => seq![LED_HW_MODE_CYCLE] + zeros5 + bytes::be_bytes(
            led.effect_duration as u16,
        ) + seq![percent_of_brightness(led.brightness), 0, 0],
        LedMode::ColorWave => seq![LED_HW_MODE_COLOR_WAVE] + zeros5 + bytes::be_bytes(
            led.effect_duration as u16,
        ) + seq![percent_of_brightness(led.brightness), 0, 0],
        LedMode::Starlight => seq![LED_HW_MODE_STARLIGHT] + color_bytes(led.color) + color_bytes(
            led.secondary_color,
        ) + bytes::filled(4, 0),
        LedMode::Breathing => seq![LED_HW_MODE_BREATHING] + color_bytes(led.color)
            + bytes::be_bytes(led.effect_duration as u16) + seq![
            0,
            percent_of_brightness(led.brightness),
            0,
            0,
            0,
        ],
        _ => seq![LED_HW_MODE_OFF] + bytes::filled(10, 0),
    }
}

/// Whether an LED has a record: effects with a brightness need one that can be
/// turned into a percentage without overflow.
pub open spec fn writable(led: LedModel) -> bool {
    led.mode is Cycle || led.mode is ColorWave || led.mode is Breathing ==> led.brightness * 100
        <= u32::MAX
}

/// Builds the record that stands for an LED. There is none for the three-colour
/// effect, which is written as off.
pub fn serialize_eeprom_led(led: &LedInfo) -> (r: [u8; 11])
    requires
        writable(led@),
    ensures
        r@ == bytes_of_led(led@),
{
    let period: u16 = led.effect_duration as u16;
    let hi: u8 = bytes::high_byte(period);
    let lo: u8 = bytes::low_byte(period);
    let c = led.color.to_rgb();
    let r: [u8; 11] = match led.mode {
        LedMode::Solid => [LED_HW_MODE_FIXED, c.r, c.g, c.b, 0, 0, 0, 0, 0, 0, 0],
        LedMode::Cycle => {
            let p: u8 = (led.brightness * 100 / 255) as u8;
            [LED_HW_MODE_CYCLE, 0, 0, 0, 0, 0, hi, lo, p, 0, 0]
        },
        LedMode::ColorWave => {
            let p: u8 = (led.brightness * 100 / 255) as u8;
            [LED_HW_MODE_COLOR_WAVE, 0, 0, 0, 0, 0, hi, lo, p, 0, 0]
        },
        LedMode::Starlight => {
            let d = led.secondary_color.to_rgb();
            [LED_HW_MODE_STARLIGHT, c.r, c.g, c.b, d.r, d.g, d.b, 0, 0, 0, 0]
        },
        LedMode::Breathing => {
            let p: u8 = (led.brightness * 100 / 255) as u8;
            [LED_HW_MODE_BREATHING, c.r, c.g, c.b, hi, lo, 0, p, 0, 0, 0]
        },
        _ => [LED_HW_MODE_OFF, 0, 0, 0, 0, 0, 0, 0, 0, 0, 0],
    };
    assert(r@ =~= bytes_of_led(led@));
    r
}

/// The record sent to a live LED zone: that of the onboard profile, with a
/// record of three colours for the three-colour effect.
pub open spec fn payload_of_led(led: LedModel) -> Seq<u8> {
    if led.mode is TriColor {
        seq![LED_HW_MODE_TRICOLOR] + color_bytes(led.color) + color_bytes(led.secondary_color)
            + color_bytes(led.tertiary_color) + seq![0u8]
    } else {
        bytes_of_led(led)
    }
}

/// Builds the record sent to a live LED zone.
pub fn build_led_payload(led: &LedInfo) -> (r: [u8; 11])
    requires
        writable(led@),
    ensures
        r@ == payload_of_led(led@),
{
    match led.mode {
        LedMode::TriColor => {
            let a = led.color.to_rgb();
            let b = led.secondary_color.to_rgb();
            let c = led.tertiary_color.to_rgb();
            let r: [u8; 11] = [
                LED_HW_MODE_TRICOLOR,
                a.r,
                a.g,
                a.b,
                b.r,
                b.g,
                b.b,
                c.r,
                c.g,
                c.b,
                0,
            ];
            assert(r@ =~= payload_of_led(led@));
            r
        },
        _ => serialize_eeprom_led(led),
    }
}

/// Every effect but the three-colour one survives its record, with the
/// parameters that the effect has: colours up to the range of a byte, the
/// duration up to sixteen bits, the brightness in steps of one percent.
pub proof fn led_record_round_trip(led: LedModel, index: int)
    requires
        led.brightness <= 255,
        led.effect_duration <= 0xFFFF,
    ensures
        ({
            let r = led_of_bytes(bytes_of_led(led), index);
            let color = Color::of_rgb(led.color.rgb());
            &&& r.index == index as u32
            &&& r.mode == (if led.mode is TriColor {
                LedMode::Off
            } else {
                led.mode
            })
            &&& led.mode is Solid || led.mode is Starlight || led.mode is Breathing ==> r.color
                == color
            &&& led.mode is Starlight ==> r.secondary_color == Color::of_rgb(
                led.secondary_color.rgb(),
            )
            &&& led.mode is Cycle || led.mode is ColorWave || led.mode is Breathing
                ==> r.effect_duration == led.effect_duration
            &&& led.mode is Cycle || led.mode is ColorWave || led.mode is Breathing
                ==> led.brightness - 3 <= r.brightness <= led.brightness
        }),
{
    let s = bytes_of_led(led);
    bytes::bytes_round_trip(led.effect_duration as u16, 0, 0);
    let p = percent_of_brightness(led.brightness);
    assert(p == led.brightness * 100 / 255);
}

} // verus!
