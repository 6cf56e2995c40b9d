//! The settings of a profile as a device stores them.

use crate::bytes;
use crate::engine::device;
use crate::engine::device::{
    Color, Dpi, LedInfo, LedMode, LedModel, ProfileInfo, ProfileModel, ResolutionInfo,
    ResolutionModel, RgbColor,
};
use crate::hal::sinowealth::protocol;
use crate::hal::sinowealth::protocol::{LedType, SINOWEALTH_NUM_DPIS, Sensor};
use vstd::prelude::*;

verus! {

pub const CONFIG_FLAGS: usize = 4;

pub const DPI_COUNT: usize = 6;

pub const DPI_SLOTS: usize = 7;

pub const DPI_ACTIVE_COLOR: usize = 23;

pub const REPORT_RATE: usize = 72;

pub const LED_EFFECT: usize = 77;

pub const LED_COLOR: usize = 78;

pub const LED_SPEED: usize = 81;

pub const LED_BRIGHTNESS: usize = 83;

/// The LED effects of a device.
#[derive(Debug, Clone, Copy, PartialEq, Eq, Structural)]
pub enum RgbEffect {
    Off,
    Glorious,
    Single,
    Breathing7,
    Tail,
    Breathing,
    Constant,
    Rave,
    Random,
    Wave,
    Breathing1,
    NotSupported,
}

impl RgbEffect {
    /// The number of the effect.
    pub open spec fn code(self) -> u8 {
        match self {
            RgbEffect::Off => 0x00,
            RgbEffect::Glorious => 0x01,
            RgbEffect::Single => 0x02,
            RgbEffect::Breathing7 => 0x03,
            RgbEffect::Tail => 0x04,
            RgbEffect::Breathing => 0x05,
            RgbEffect::Constant => 0x06,
            RgbEffect::Rave => 0x07,
            RgbEffect::Random => 0x08,
            RgbEffect::Wave => 0x09,
            RgbEffect::Breathing1 => 0x0a,
            RgbEffect::NotSupported => 0xff,
        }
    }

    /// The effect with a number; none for a number that is not in use.
    pub open spec fn of_code(b: u8) -> RgbEffect {
        match b {
            0x01 => RgbEffect::Glorious,
            0x02 => RgbEffect::Single,
            0x03 => RgbEffect::Breathing7,
            0x04 => RgbEffect::Tail,
            0x05 => RgbEffect::Breathing,
            0x06 => RgbEffect::Constant,
            0x07 => RgbEffect::Rave,
            0x08 => RgbEffect::Random,
            0x09 => RgbEffect::Wave,
            0x0a => RgbEffect::Breathing1,
            0xff => RgbEffect::NotSupported,
            _ => RgbEffect::Off,
        }
    }

    pub fn from_byte(b: u8) -> (r: Self)
        ensures
            r == RgbEffect::of_code(b),
    {
        match b {
            0x01 => RgbEffect::Glorious,
            0x02 => RgbEffect::Single,
            0x03 => RgbEffect::Breathing7,
            0x04 => RgbEffect::Tail,
            0x05 => RgbEffect::Breathing,
            0x06 => RgbEffect::Constant,
            0x07 => RgbEffect::Rave,
            0x08 => RgbEffect::Random,
            0x09 => RgbEffect::Wave,
            0x0a => RgbEffect::Breathing1,
            0xff => RgbEffect::NotSupported,
            _ => RgbEffect::Off,
        }
    }

    pub fn to_byte(self) -> (r: u8)
        ensures
            r == self.code(),
    {
        match self {
            RgbEffect::Off => 0x00,
            RgbEffect::Glorious => 0x01,
            RgbEffect::Single => 0x02,
            RgbEffect::Breathing7 => 0x03,
            RgbEffect::Tail => 0x04,
            RgbEffect::Breathing => 0x05,
            RgbEffect::Constant => 0x06,
            RgbEffect::Rave => 0x07,
            RgbEffect::Random => 0x08,
            RgbEffect::Wave => 0x09,
            RgbEffect::Breathing1 => 0x0a,
            RgbEffect::NotSupported => 0xff,
        }
    }

    /// The LED mode that the effect stands for.
    pub open spec fn mode(self) -> LedMode {
        match self {
            RgbEffect::Off | RgbEffect::NotSupported => LedMode::Off,
            RgbEffect::Single | RgbEffect::Constant => LedMode::Solid,
            RgbEffect::Breathing | RgbEffect::Breathing1 | RgbEffect::Breathing7 => {
                LedMode::Breathing
            },
            RgbEffect::Glorious | RgbEffect::Wave | RgbEffect::Tail => LedMode::Cycle,
            RgbEffect::Rave | RgbEffect::Random => LedMode::ColorWave,
        }
    }

    /// The effect for an LED mode.
    pub open spec fn of_mode(mode: LedMode) -> RgbEffect {
        match mode {
            LedMode::Off => RgbEffect::Off,
            LedMode::Solid => RgbEffect::Single,
            LedMode::Breathing => RgbEffect::Breathing1,
            LedMode::Cycle => RgbEffect::Glorious,
            LedMode::ColorWave => RgbEffect::Wave,
            LedMode::Starlight => RgbEffect::Random,
            LedMode::TriColor => RgbEffect::Rave,
        }
    }
}

/// An effect survives its number.
pub proof fn effect_code_round_trip(effect: RgbEffect)
    ensures
        RgbEffect::of_code(effect.code()) == effect,
{
}

/// Whether a mode has a colour of its own.
pub open spec fn has_color(mode: LedMode) -> bool {
    mode is Solid || mode is Breathing
}

/// The colour that three bytes stand for.
pub open spec fn color_of(led_type: LedType, a: u8, b: u8, c: u8) -> RgbColor {
    if led_type is Rbg {
        RgbColor { r: a, g: c, b }
    } else {
        RgbColor { r: a, g: b, b: c }
    }
}

/// The three bytes of a colour.
pub open spec fn color_bytes(led_type: LedType, color: RgbColor) -> Seq<u8> {
    if led_type is Rbg {
        seq![color.r, color.b, color.g]
    } else {
        seq![color.r, color.g, color.b]
    }
}

/// The colour that the first three of some bytes stand for; black if there are
/// fewer.
pub fn read_color(led_type: LedType, bytes: &[u8]) -> (r: RgbColor)
    ensures
        r == if bytes@.len() < 3 {
            RgbColor { r: 0, g: 0, b: 0 }
        } else {
            color_of(led_type, bytes@[0], bytes@[1], bytes@[2])
        },
{
    if bytes.len() < 3 {
        return RgbColor { r: 0, g: 0, b: 0 };
    }
    match led_type {
        LedType::Rbg => RgbColor { r: bytes[0], g: bytes[2], b: bytes[1] },
        _ => RgbColor { r: bytes[0], g: bytes[1], b: bytes[2] },
    }
}

/// The three bytes of a colour.
pub fn write_color(led_type: LedType, color: RgbColor) -> (r: [u8; 3])
    ensures
        r@ == color_bytes(led_type, color),
{
    let r: [u8; 3] = match led_type {
        LedType::Rbg => [color.r, color.b, color.g],
        _ => [color.r, color.g, color.b],
    };
    assert(r@ =~= color_bytes(led_type, color));
    r
}

/// A colour comes back as it was written.
pub proof fn color_round_trip(led_type: LedType, color: RgbColor)
    ensures
        ({
            let w = color_bytes(led_type, color);
            color_of(led_type, w[0], w[1], w[2]) == color
        }),
{
}

/// The polling rates that a device has, in Hz.
pub open spec fn report_rates() -> Seq<u32> {
    seq![125u32, 250, 500, 1000]
}

pub(crate) fn report_rate_list() -> (r: Vec<u32>)
    ensures
        r@ == report_rates(),
{
    let r: Vec<u32> = vec![125, 250, 500, 1000];
    assert(r@ =~= report_rates());
    r
}

/// The debounce times that a device has, in milliseconds.
pub open spec fn debounce_times() -> Seq<u32> {
    seq![4u32, 6, 8, 10, 12, 14, 16]
}

pub(crate) fn debounce_time_list() -> (r: Vec<u32>)
    ensures
        r@ == debounce_times(),
{
    let r: Vec<u32> = vec![4, 6, 8, 10, 12, 14, 16];
    assert(r@ =~= debounce_times());
    r
}

/// The polling rate that a byte stands for; 1000 Hz if it is not known.
pub open spec fn rate_of_byte(b: u8) -> u32 {
    match b {
        1 => 125,
        2 => 250,
        3 => 500,
        _ => 1000,
    }
}

/// The byte of a polling rate; that of 1000 Hz for any other.
pub open spec fn byte_of_rate(rate: u32) -> u8 {
    match rate {
        125 => 1,
        250 => 2,
        500 => 3,
        _ => 4,
    }
}

/// Whether the axes have resolutions of their own.
pub open spec fn independent_axes(cfg: Seq<u8>) -> bool {
    cfg[CONFIG_FLAGS as int] / 8 % 2 == 1
}

/// The resolution in slot `i`.
pub open spec fn loaded_dpi(sensor: Sensor, cfg: Seq<u8>, i: int) -> Dpi {
    let x = sensor.dpi_of_raw(cfg[DPI_SLOTS + 2 * i]) as u32;
    let y = sensor.dpi_of_raw(cfg[DPI_SLOTS + 2 * i + 1]) as u32;
    if independent_axes(cfg) {
        Dpi::Separate { x, y }
    } else {
        Dpi::Unified(x)
    }
}

/// A resolution as the settings describe it. There are eight slots, of which
/// the first ones are enabled.
pub open spec fn loaded_resolution(sensor: Sensor, cfg: Seq<u8>, r: ResolutionModel, i: int) -> ResolutionModel {
    let active = cfg[DPI_ACTIVE_COLOR as int] == i;
    ResolutionModel {
        dpi: if i < 8 {
            loaded_dpi(sensor, cfg, i)
        } else {
            r.dpi
        },
        is_disabled: if i < 8 {
            i >= cfg[DPI_COUNT as int] / 16
        } else {
            r.is_disabled
        },
        is_active: active,
        is_default: active,
        ..r
    }
}

/// An LED as the settings describe it.
pub open spec fn loaded_led(led_type: LedType, cfg: Seq<u8>, l: LedModel) -> LedModel {
    let mode = RgbEffect::of_code(cfg[LED_EFFECT as int]).mode();
    LedModel {
        mode,
        color: if has_color(mode) {
            Color::of_rgb(
                color_of(
                    led_type,
                    cfg[LED_COLOR as int],
                    cfg[LED_COLOR + 1],
                    cfg[LED_COLOR + 2],
                ),
            )
        } else {
            l.color
        },
        effect_duration: (cfg[LED_SPEED as int] * 100) as u32,
        brightness: cfg[LED_BRIGHTNESS as int] as u32,
        ..l
    }
}

/// A profile as the settings describe it; settings that are too short say
/// nothing.
pub open spec fn loaded_profile(sensor: Sensor, led_type: LedType, cfg: Seq<u8>, p: ProfileModel) -> ProfileModel {
    if cfg.len() < 124 {
        p
    } else {
        ProfileModel {
            resolutions: Seq::new(
                p.resolutions.len(),
                |i: int| loaded_resolution(sensor, cfg, p.resolutions[i], i),
            ),
            report_rate: rate_of_byte(cfg[REPORT_RATE as int]),
            report_rates: report_rates(),
            debounces: debounce_times(),
            leds: if !(led_type is Absent) && p.leds.len() > 0 {
                p.leds.update(0, loaded_led(led_type, cfg, p.leds[0]))
            } else {
                p.leds
            },
            ..p
        }
    }
}

fn parse_resolutions(sensor: Sensor, cfg: &Vec<u8>, p: &mut ProfileInfo)
    requires
        cfg@.len() >= 124,
    ensures
        final(p)@ == (ProfileModel {
            resolutions: Seq::new(
                old(p)@.resolutions.len(),
                |i: int| loaded_resolution(sensor, cfg@, old(p)@.resolutions[i], i),
            ),
            ..old(p)@
        }),
{
    let independent = cfg[CONFIG_FLAGS] / 8 % 2 == 1;
    let enabled: usize = (cfg[DPI_COUNT] / 16) as usize;
    let active: usize = cfg[DPI_ACTIVE_COLOR] as usize;
    let mut i: usize = 0;
    while i < p.resolutions.len()
        invariant
            i <= p.resolutions@.len(),
            cfg@.len() >= 124,
            independent == independent_axes(cfg@),
            enabled == cfg@[DPI_COUNT as int] / 16,
            active == cfg@[DPI_ACTIVE_COLOR as int],
            p@ == (ProfileModel { resolutions: p@.resolutions, ..old(p)@ }),
            p@.resolutions.len() == old(p)@.resolutions.len(),
            forall|k: int|
                0 <= k < i ==> #[trigger] p@.resolutions[k] == loaded_resolution(
                    sensor,
                    cfg@,
                    old(p)@.resolutions[k],
                    k,
                ),
            forall|k: int|
                i <= k < p@.resolutions.len() ==> #[trigger] p@.resolutions[k] == old(
                    p,
                )@.resolutions[k],
        decreases p.resolutions@.len() - i,
    {
        proof {
            device::lemma_resolutions_view_update(p.resolutions@, i as int);
        }
        assert(p@.resolutions[i as int] == p.resolutions@[i as int]@);
        let mut dpi = p.resolutions[i].dpi;
        let mut is_disabled = p.resolutions[i].is_disabled;
        if i < SINOWEALTH_NUM_DPIS {
            let base: usize = DPI_SLOTS + 2 * i;
            let x: u32 = sensor.raw_to_dpi(cfg[base]);
            let y: u32 = sensor.raw_to_dpi(cfg[base + 1]);
            dpi = if independent {
                Dpi::Separate { x, y }
            } else {
                Dpi::Unified(x)
            };
            is_disabled = i >= enabled;
        }
        let res = ResolutionInfo {
            index: p.resolutions[i].index,
            dpi,
            dpi_list: p.resolutions[i].dpi_list.clone(),
            capabilities: p.resolutions[i].capabilities.clone(),
            is_active: i == active,
            is_default: i == active,
            is_disabled,
        };
        assert(res@ =~= loaded_resolution(sensor, cfg@, old(p)@.resolutions[i as int], i as int));
        p.resolutions[i] = res;
        i += 1;
    }
    assert(p@.resolutions =~= Seq::new(
        old(p)@.resolutions.len(),
        |i: int| loaded_resolution(sensor, cfg@, old(p)@.resolutions[i], i),
    ));
}

/// Sets an LED from the settings.
pub fn parse_led_effect(led_type: LedType, cfg: &Vec<u8>, led: &mut LedInfo)
    requires
        cfg@.len() > LED_BRIGHTNESS,
    ensures
        final(led)@ == loaded_led(led_type, cfg@, old(led)@),
{
    let mode = match RgbEffect::from_byte(cfg[LED_EFFECT]) {
        RgbEffect::Off | RgbEffect::NotSupported => LedMode::Off,
        RgbEffect::Single | RgbEffect::Constant => LedMode::Solid,
        RgbEffect::Breathing | RgbEffect::Breathing1 | RgbEffect::Breathing7 => {
            LedMode::Breathing
        },
        RgbEffect::Glorious | RgbEffect::Wave | RgbEffect::Tail => LedMode::Cycle,
        RgbEffect::Rave | RgbEffect::Random => LedMode::ColorWave,
    };
    led.mode = mode;
    if mode == LedMode::Solid || mode == LedMode::Breathing {
        let part = vstd::slice::slice_subrange(cfg.as_slice(), LED_COLOR, LED_COLOR + 3);
        led.color = Color::from_rgb(read_color(led_type, part));
    }
    led.effect_duration = cfg[LED_SPEED] as u32 * 100;
    led.brightness = cfg[LED_BRIGHTNESS] as u32;
}

/// Sets a profile from its settings.
pub fn parse_config_into_profile(
    sensor: Sensor,
    led_type: LedType,
    cfg: &Vec<u8>,
    p: &mut ProfileInfo,
)
    ensures
        final(p)@ == loaded_profile(sensor, led_type, cfg@, old(p)@),
{
    if cfg.len() < 124 {
        return;
    }
    parse_resolutions(sensor, cfg, p);
    p.report_rate = match cfg[REPORT_RATE] {
        1 => 125,
        2 => 250,
        3 => 500,
        _ => 1000,
    };
    p.report_rates = report_rate_list();
    p.debounces = debounce_time_list();
    assert(p@.leds.len() == p.leds.len());
    if led_type != LedType::Absent && p.leds.len() > 0 {
        proof {
            device::lemma_leds_view_update(p.leds@, 0);
        }
        assert(p@.leds[0] == p.leds@[0]@);
        parse_led_effect(led_type, cfg, &mut p.leds[0]);
    }
}

/// The values of both axes; `None` if they are not known.
pub open spec fn axes_of(dpi: Dpi) -> Option<(u32, u32)> {
    match dpi {
        Dpi::Unified(v) => Some((v, v)),
        Dpi::Separate { x, y } => Some((x, y)),
        Dpi::Unknown => None,
    }
}

/// The value of the first axis; 0 if it is not known.
pub open spec fn x_of(dpi: Dpi) -> u32 {
    match axes_of(dpi) {
        Some((x, y)) => x,
        None => 0,
    }
}

/// The value of the second axis; 0 if it is not known.
pub open spec fn y_of(dpi: Dpi) -> u32 {
    match axes_of(dpi) {
        Some((x, y)) => y,
        None => 0,
    }
}

/// The byte of a DPI value; 0 for one that the sensor does not have.
pub open spec fn slot_byte(sensor: Sensor, dpi: u32) -> u8 {
    match sensor.raw_of_dpi(dpi) {
        Some(raw) => raw,
        None => 0,
    }
}

/// Settings with the first `n` resolutions written into their slots. One that
/// is not known leaves its slot alone.
pub open spec fn with_slots(
    sensor: Sensor,
    cfg: Seq<u8>,
    resolutions: Seq<ResolutionModel>,
    n: nat,
) -> Seq<u8>
    decreases n,
{
    if n == 0 {
        cfg
    } else {
        let earlier = with_slots(sensor, cfg, resolutions, (n - 1) as nat);
        match axes_of(resolutions[n - 1].dpi) {
            None => earlier,
            Some((x, y)) => earlier.update(
                DPI_SLOTS + 2 * (n - 1),
                slot_byte(sensor, x),
            ).update(DPI_SLOTS + 2 * (n - 1) + 1, slot_byte(sensor, y)),
        }
    }
}

/// How many of the first `n` resolutions are enabled and known.
pub open spec fn enabled_slots(resolutions: Seq<ResolutionModel>, n: nat) -> nat
    decreases n,
{
    if n == 0 {
        0
    } else {
        enabled_slots(resolutions, (n - 1) as nat) + if axes_of(resolutions[n - 1].dpi) is Some
            && !resolutions[n - 1].is_disabled {
            1nat
        } else {
            0
        }
    }
}

/// How many resolutions are written: the first eight.
pub open spec fn slots_written(resolutions: Seq<ResolutionModel>) -> nat {
    if resolutions.len() < 8 {
        resolutions.len()
    } else {
        8
    }
}

/// Whether `i` is the first active resolution.
pub open spec fn first_active(resolutions: Seq<ResolutionModel>, i: int) -> bool {
    &&& 0 <= i < resolutions.len()
    &&& resolutions[i].is_active
    &&& forall|j: int| 0 <= j < i ==> !(#[trigger] resolutions[j]).is_active
}

/// Settings with an LED written into them.
pub open spec fn with_led(led_type: LedType, cfg: Seq<u8>, l: LedModel) -> Seq<u8> {
    let lit = cfg.update(LED_EFFECT as int, RgbEffect::of_mode(l.mode).code());
    let colored = if has_color(l.mode) {
        bytes::spliced(lit, LED_COLOR as int, color_bytes(led_type, l.color.rgb()))
    } else {
        lit
    };
    colored.update(
        LED_SPEED as int,
        if l.effect_duration / 100 > 255 {
            255
        } else {
            (l.effect_duration / 100) as u8
        },
    ).update(
        LED_BRIGHTNESS as int,
        if l.brightness > 255 {
            255
        } else {
            l.brightness as u8
        },
    )
}

/// Settings with a profile written into them; settings that are too short are
/// left alone.
pub open spec fn with_profile(sensor: Sensor, led_type: LedType, cfg: Seq<u8>, p: ProfileModel) -> Seq<
    u8,
> {
    if cfg.len() < 124 {
        cfg
    } else {
        let n = slots_written(p.resolutions);
        let sensed = with_slots(sensor, cfg, p.resolutions, n);
        let counted = sensed.update(
            DPI_COUNT as int,
            (16 * enabled_slots(p.resolutions, n) + sensed[DPI_COUNT as int] % 16) as u8,
        );
        let active = if exists|i: int| first_active(p.resolutions, i) {
            counted.update(
                DPI_ACTIVE_COLOR as int,
                (choose|i: int| first_active(p.resolutions, i)) as u8,
            )
        } else {
            counted
        };
        let timed = active.update(REPORT_RATE as int, byte_of_rate(p.report_rate));
        if !(led_type is Absent) && p.leds.len() > 0 {
            with_led(led_type, timed, p.leds[0])
        } else {
            timed
        }
    }
}

fn write_slots(sensor: Sensor, cfg: &mut Vec<u8>, p: &ProfileInfo) -> (enabled: u8)
    requires
        old(cfg)@.len() >= 124,
    ensures
        final(cfg)@ == with_slots(
            sensor,
            old(cfg)@,
            p@.resolutions,
            slots_written(p@.resolutions),
        ),
        final(cfg)@.len() == old(cfg)@.len(),
        enabled == enabled_slots(p@.resolutions, slots_written(p@.resolutions)),
        enabled <= 8,
{
    let mut enabled: u8 = 0;
    assert(p@.resolutions.len() == p.resolutions@.len());
    let mut i: usize = 0;
    while i < p.resolutions.len() && i < SINOWEALTH_NUM_DPIS
        invariant
            p@.resolutions.len() == p.resolutions@.len(),
            i <= p.resolutions@.len(),
            i <= 8,
            cfg@.len() == old(cfg)@.len(),
            cfg@.len() >= 124,
            cfg@ == with_slots(sensor, old(cfg)@, p@.resolutions, i as nat),
            enabled == enabled_slots(p@.resolutions, i as nat),
            enabled <= i,
        decreases p.resolutions@.len() - i,
    {
        assert(p@.resolutions[i as int] == p.resolutions@[i as int]@);
        let base: usize = DPI_SLOTS + 2 * i;
        let axes: Option<(u32, u32)> = match p.resolutions[i].dpi {
            Dpi::Unified(v) => Some((v, v)),
            Dpi::Separate { x, y } => Some((x, y)),
            Dpi::Unknown => None,
        };
        if let Some((x, y)) = axes {
            cfg[base] = match sensor.dpi_to_raw(x) {
                Some(raw) => raw,
                None => 0,
            };
            cfg[base + 1] = match sensor.dpi_to_raw(y) {
                Some(raw) => raw,
                None => 0,
            };
            if !p.resolutions[i].is_disabled {
                enabled += 1;
            }
        }
        i += 1;
    }
    enabled
}

fn find_active(p: &ProfileInfo) -> (r: Option<usize>)
    ensures
        match r {
            Some(i) => first_active(p@.resolutions, i as int),
            None => !exists|i: int| first_active(p@.resolutions, i),
        },
{
    let mut i: usize = 0;
    while i < p.resolutions.len()
        invariant
            i <= p.resolutions@.len(),
            forall|j: int| 0 <= j < i ==> !(#[trigger] p@.resolutions[j]).is_active,
        decreases p.resolutions@.len() - i,
    {
        assert(p@.resolutions[i as int] == p.resolutions@[i as int]@);
        if p.resolutions[i].is_active {
            return Some(i);
        }
        i += 1;
    }
    None
}

/// Writes an LED into settings.
pub fn encode_led_effect(led_type: LedType, cfg: &mut Vec<u8>, led: &LedInfo)
    requires
        old(cfg)@.len() > LED_BRIGHTNESS,
    ensures
        final(cfg)@ == with_led(led_type, old(cfg)@, led@),
        final(cfg)@.len() == old(cfg)@.len(),
{
    let effect = match led.mode {
        LedMode::Off => RgbEffect::Off,
        LedMode::Solid => RgbEffect::Single,
        LedMode::Breathing => RgbEffect::Breathing1,
        LedMode::Cycle => RgbEffect::Glorious,
        LedMode::ColorWave => RgbEffect::Wave,
        LedMode::Starlight => RgbEffect::Random,
        LedMode::TriColor => RgbEffect::Rave,
    };
    cfg[LED_EFFECT] = effect.to_byte();
    if led.mode == LedMode::Solid || led.mode == LedMode::Breathing {
        let color = write_color(led_type, led.color.to_rgb());
        bytes::put(cfg, LED_COLOR, color.as_slice());
    }
    let speed: u32 = led.effect_duration / 100;
    cfg[LED_SPEED] = if speed > 255 {
        255
    } else {
        speed as u8
    };
    cfg[LED_BRIGHTNESS] = if led.brightness > 255 {
        255
    } else {
        led.brightness as u8
    };
}

/// Writes a profile into its settings.
pub fn encode_config_from_profile(
    sensor: Sensor,
    led_type: LedType,
    cfg: &mut Vec<u8>,
    p: &ProfileInfo,
)
    ensures
        final(cfg)@ == with_profile(sensor, led_type, old(cfg)@, p@),
        final(cfg)@.len() == old(cfg)@.len(),
{
    if cfg.len() < 124 {
        return;
    }
    let enabled: u8 = write_slots(sensor, cfg, p);
    let low: u8 = cfg[DPI_COUNT] % 16;
    cfg[DPI_COUNT] = 16 * enabled + low;
    if let Some(i) = find_active(p) {
        proof {
            let k = choose|k: int| first_active(p@.resolutions, k);
            assert(first_active(p@.resolutions, i as int));
            assert(k == i);
        }
        cfg[DPI_ACTIVE_COLOR] = i as u8;
    }
    cfg[REPORT_RATE] = match p.report_rate {
        125 => 1,
        250 => 2,
        500 => 3,
        _ => 4,
    };
    assert(p@.leds.len() == p.leds.len());
    if led_type != LedType::Absent && p.leds.len() > 0 {
        assert(p@.leds[0] == p.leds@[0]@);
        encode_led_effect(led_type, cfg, &p.leds[0]);
    }
}

/// Whether a sensor has both values of a resolution, and the settings keep as
/// many.
pub open spec fn storable_dpi(sensor: Sensor, cfg: Seq<u8>, dpi: Dpi) -> bool {
    match dpi {
        Dpi::Unified(v) => !independent_axes(cfg) && v % 100 == 0 && 100 <= v <= sensor.top_dpi(),
        Dpi::Separate { x, y } => {
            &&& independent_axes(cfg)
            &&& x % 100 == 0 && 100 <= x <= sensor.top_dpi()
            &&& y % 100 == 0 && 100 <= y <= sensor.top_dpi()
        },
        Dpi::Unknown => false,
    }
}

/// Whether a profile has eight resolutions that its sensor has, of which the
/// first `enabled` are not disabled and one is active.
pub open spec fn storable(sensor: Sensor, cfg: Seq<u8>, p: ProfileModel, enabled: int, active: int) -> bool {
    &&& p.resolutions.len() == 8
    &&& 0 <= enabled <= 8
    &&& 0 <= active < 8
    &&& forall|i: int|
        0 <= i < 8 ==> {
            &&& storable_dpi(sensor, cfg, (#[trigger] p.resolutions[i]).dpi)
            &&& p.resolutions[i].is_disabled == (i >= enabled)
            &&& p.resolutions[i].is_active == (i == active)
        }
    &&& report_rates().contains(p.report_rate)
}

proof fn lemma_slots_written(
    sensor: Sensor,
    cfg: Seq<u8>,
    resolutions: Seq<ResolutionModel>,
    n: nat,
)
    requires
        n <= 8,
        cfg.len() >= 124,
        forall|i: int| 0 <= i < n ==> axes_of((#[trigger] resolutions[i]).dpi) is Some,
    ensures
        ({
            let w = with_slots(sensor, cfg, resolutions, n);
            &&& w.len() == cfg.len()
            &&& forall|k: int|
                0 <= k < cfg.len() && !(7 <= k < 7 + 2 * n) ==> #[trigger] w[k] == cfg[k]
            &&& forall|i: int|
                0 <= i < n ==> #[trigger] w[7 + 2 * i] == slot_byte(
                    sensor,
                    x_of(resolutions[i].dpi),
                )
            &&& forall|i: int|
                0 <= i < n ==> #[trigger] w[7 + 2 * i + 1] == slot_byte(
                    sensor,
                    y_of(resolutions[i].dpi),
                )
        }),
    decreases n,
{
    if n > 0 {
        lemma_slots_written(sensor, cfg, resolutions, (n - 1) as nat);
        assert(axes_of(resolutions[n - 1].dpi) is Some);
        let w = with_slots(sensor, cfg, resolutions, n);
        let before = with_slots(sensor, cfg, resolutions, (n - 1) as nat);
        assert forall|i: int| 0 <= i < n implies #[trigger] w[7 + 2 * i] == slot_byte(
            sensor,
            x_of(resolutions[i].dpi),
        ) by {
            if i < n - 1 {
                assert(before[7 + 2 * i] == slot_byte(sensor, x_of(resolutions[i].dpi)));
            }
        }
        assert forall|i: int| 0 <= i < n implies #[trigger] w[7 + 2 * i + 1] == slot_byte(
            sensor,
            y_of(resolutions[i].dpi),
        ) by {
            if i < n - 1 {
                assert(before[7 + 2 * i + 1] == slot_byte(
                    sensor,
                    y_of(resolutions[i].dpi),
                ));
            }
        }
    }
}

proof fn lemma_enabled_slots(resolutions: Seq<ResolutionModel>, enabled: int, n: nat)
    requires
        forall|i: int|
            0 <= i < n ==> axes_of((#[trigger] resolutions[i]).dpi) is Some
                && resolutions[i].is_disabled == (i >= enabled),
        0 <= enabled,
    ensures
        enabled_slots(resolutions, n) == if n < enabled {
            n as int
        } else {
            enabled
        },
    decreases n,
{
    if n > 0 {
        lemma_enabled_slots(resolutions, enabled, (n - 1) as nat);
        assert(axes_of(resolutions[n - 1].dpi) is Some);
    }
}

/// What was written of a profile that its sensor can have is read back: the
/// resolutions, which of them are enabled, which one is active, and the rate.
pub proof fn config_reads_back(
    sensor: Sensor,
    led_type: LedType,
    cfg: Seq<u8>,
    p: ProfileModel,
    enabled: int,
    active: int,
)
    requires
        cfg.len() >= 124,
        storable(sensor, cfg, p, enabled, active),
    ensures
        ({
            let back = loaded_profile(
                sensor,
                led_type,
                with_profile(sensor, led_type, cfg, p),
                p,
            );
            &&& back.report_rate == p.report_rate
            &&& back.resolutions.len() == 8
            &&& forall|i: int|
                0 <= i < 8 ==> {
                    &&& (#[trigger] back.resolutions[i]).dpi == p.resolutions[i].dpi
                    &&& back.resolutions[i].is_disabled == p.resolutions[i].is_disabled
                    &&& back.resolutions[i].is_active == p.resolutions[i].is_active
                }
        }),
{
    assert forall|i: int| 0 <= i < 8 implies axes_of((#[trigger] p.resolutions[i]).dpi) is Some
        && p.resolutions[i].is_disabled == (i >= enabled) by {
        assert(storable_dpi(sensor, cfg, p.resolutions[i].dpi));
    }
    lemma_slots_written(sensor, cfg, p.resolutions, 8);
    lemma_enabled_slots(p.resolutions, enabled, 8);
    let sensed = with_slots(sensor, cfg, p.resolutions, 8);
    let w = with_profile(sensor, led_type, cfg, p);
    assert(first_active(p.resolutions, active)) by {
        assert(p.resolutions[active].is_active);
    }
    let k = choose|i: int| first_active(p.resolutions, i);
    assert(k == active) by {
        assert(first_active(p.resolutions, k));
        assert(p.resolutions[k].is_active == (k == active));
    }
    assert(w.len() == cfg.len());
    assert(w[CONFIG_FLAGS as int] == cfg[CONFIG_FLAGS as int]) by {
        assert(sensed[4] == cfg[4]);
    }
    assert(w[DPI_COUNT as int] / 16 == enabled);
    assert(w[DPI_ACTIVE_COLOR as int] == active);
    assert(w[REPORT_RATE as int] == byte_of_rate(p.report_rate));
    let rates = report_rates();
    assert(rates[0] == 125 && rates[1] == 250 && rates[2] == 500 && rates[3] == 1000);
    let back = loaded_profile(sensor, led_type, w, p);
    assert forall|i: int| 0 <= i < 8 implies {
        &&& (#[trigger] back.resolutions[i]).dpi == p.resolutions[i].dpi
        &&& back.resolutions[i].is_disabled == p.resolutions[i].is_disabled
        &&& back.resolutions[i].is_active == p.resolutions[i].is_active
    } by {
        let dpi = p.resolutions[i].dpi;
        assert(storable_dpi(sensor, cfg, dpi));
        let x = x_of(dpi);
        let y = y_of(dpi);
        assert(sensed[7 + 2 * i] == slot_byte(sensor, x));
        assert(sensed[7 + 2 * i + 1] == slot_byte(sensor, y));
        assert(w[7 + 2 * i] == sensed[7 + 2 * i]);
        assert(w[7 + 2 * i + 1] == sensed[7 + 2 * i + 1]);
        assert(sensor.dpi_of_raw(0) >= 100 || sensor is Pmw3389);
        protocol::sensor_dpi_round_trip(sensor, x, 1);
        protocol::sensor_dpi_round_trip(sensor, y, 1);
    }
}

/// An LED is read back as it was written: with the modes off, steady, breathing
/// and cycle, a duration of whole tenths of a second, and a brightness of a
/// byte.
pub proof fn led_reads_back(led_type: LedType, cfg: Seq<u8>, l: LedModel)
    requires
        cfg.len() >= 124,
        l.mode is Off || l.mode is Solid || l.mode is Breathing || l.mode is Cycle,
        l.effect_duration % 100 == 0,
        l.effect_duration <= 25500,
        l.brightness <= 255,
    ensures
        ({
            let back = loaded_led(led_type, with_led(led_type, cfg, l), l);
            &&& back.mode == l.mode
            &&& has_color(l.mode) ==> back.color == Color::of_rgb(l.color.rgb())
            &&& back.effect_duration == l.effect_duration
            &&& back.brightness == l.brightness
        }),
{
    color_round_trip(led_type, l.color.rgb());
}

} // verus!
