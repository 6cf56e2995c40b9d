//! Nubwo mice with a simpler SinoWealth protocol: the layout of their reports.
//! Profiles cannot be loaded or written yet.

use crate::bytes;
use crate::text;
use vstd::prelude::*;

verus! {

pub const REPORTID_GET_FIRMWARE: u8 = 0x04;

/// What an LED does.
#[derive(Debug, Clone, Copy, PartialEq, Eq, Structural)]
pub enum ColorMode {
    Off,
    On,
    Breathing,
    ColorShift,
    Spectrum,
    Marquee,
}

impl ColorMode {
    /// The byte that stands for this mode.
    pub open spec fn code(self) -> u8 {
        match self {
            ColorMode::Off => 0x00,
            ColorMode::On => 0x01,
            ColorMode::Breathing => 0x02,
            ColorMode::ColorShift => 0x03,
            ColorMode::Spectrum => 0x04,
            ColorMode::Marquee => 0x05,
        }
    }

    /// The byte that stands for this mode.
    pub fn to_byte(self) -> (r: u8)
        ensures
            r == self.code(),
    {
        match self {
            ColorMode::Off => 0x00,
            ColorMode::On => 0x01,
            ColorMode::Breathing => 0x02,
            ColorMode::ColorShift => 0x03,
            ColorMode::Spectrum => 0x04,
            ColorMode::Marquee => 0x05,
        }
    }
}

/// The report that sets the LED.
#[derive(Debug, Clone, Copy)]
pub struct AestheticReport {
    pub report_id: u8,
    pub cmd: [u8; 7],
    pub r: u8,
    pub g: u8,
    pub b: u8,
    pub color_mode: u8,
    pub pad_zero: u8,
    /// From 1, low, to 3, high.
    pub brightness: u8,
    /// 1 for fast, 3 for slow, 5 for very slow.
    pub tempo: u8,
}

impl Default for AestheticReport {
    fn default() -> (r: Self)
        ensures
            r.report_id == 0,
            r.cmd@ == bytes::filled(7, 0),
            r.r == 0,
            r.g == 0,
            r.b == 0,
            r.color_mode == 0,
            r.pad_zero == 0,
            r.brightness == 0,
            r.tempo == 0,
    {
        let r = AestheticReport {
            report_id: 0,
            cmd: [0u8; 7],
            r: 0,
            g: 0,
            b: 0,
            color_mode: 0,
            pad_zero: 0,
            brightness: 0,
            tempo: 0,
        };
        assert(r.cmd@ =~= bytes::filled(7, 0));
        r
    }
}

/// Why a device cannot be used.
#[derive(Debug, Clone, Copy, PartialEq, Eq, Structural)]
pub enum NubwoError {
    /// Profiles cannot be loaded or written yet.
    NotImplemented,
}

/// What was read from a device.
#[derive(Debug)]
pub struct NubwoData {
    pub firmware_string: String,
    pub current_dpi_encoded: u8,
    pub current_rate_encoded: u8,
}

/// Driver of Nubwo mice.
#[derive(Debug)]
pub struct SinowealthNubwoDriver {
    /// What was read from the device.
    pub data: Option<NubwoData>,
}

/// The firmware version in a report: what stands from byte 48 on, up to the
/// first zero.
pub open spec fn firmware_text(report: Seq<u8>) -> Seq<char> {
    text::decoded(report.subrange(48, bytes::zero_from(report, 48)))
}

/// The report that has to be sent before the firmware version can be read.
pub fn prefirmware_query() -> (r: [u8; 16])
    ensures
        r@ == seq![0x02u8, 0x01, 0x49, 0, 0, 0, 0, 0, 0, 0, 0, 0, 0, 0, 0, 0],
{
    let r: [u8; 16] = [0x02, 0x01, 0x49, 0, 0, 0, 0, 0, 0, 0, 0, 0, 0, 0, 0, 0];
    assert(r@ =~= seq![0x02u8, 0x01, 0x49, 0, 0, 0, 0, 0, 0, 0, 0, 0, 0, 0, 0, 0]);
    r
}

impl SinowealthNubwoDriver {
    pub fn new() -> (r: Self)
        ensures
            r.data is None,
    {
        SinowealthNubwoDriver { data: None }
    }

    /// Takes the report with the firmware version. The driver keeps it, and
    /// then gives up: there is no more that it can do.
    pub fn probed(&mut self, report: &[u8; 256]) -> (r: NubwoError)
        ensures
            r == NubwoError::NotImplemented,
            final(self).data matches Some(d) && d.firmware_string@ == firmware_text(report@)
                && Some(d.current_dpi_encoded) == dpi_code(1000) && Some(d.current_rate_encoded)
                == rate_code(1000),
    {
        let end: usize = bytes::find_zero(report.as_slice(), 48);
        let name = bytes::slice(report.as_slice(), 48, end);
        self.data = Some(
            NubwoData {
                firmware_string: text::from_utf8_lossy(name.as_slice()),
                current_dpi_encoded: 0x04,
                current_rate_encoded: 0x01,
            },
        );
        NubwoError::NotImplemented
    }
}

/// The byte that stands for a resolution.
pub open spec fn dpi_code(dpi: u32) -> Option<u8> {
    if dpi == 1000 {
        Some(0x04)
    } else if dpi == 2000 {
        Some(0x03)
    } else if dpi == 3000 {
        Some(0x02)
    } else if dpi == 5000 {
        Some(0x01)
    } else if dpi == 15_000 {
        Some(0x00)
    } else {
        None
    }
}

/// The byte that stands for a resolution; only five have one.
pub fn encode_dpi(dpi: u32) -> (r: Option<u8>)
    ensures
        r == dpi_code(dpi),
{
    match dpi {
        1000 => Some(0x04),
        2000 => Some(0x03),
        3000 => Some(0x02),
        5000 => Some(0x01),
        15_000 => Some(0x00),
        _ => None,
    }
}

/// The byte that stands for a report rate.
pub open spec fn rate_code(rate: u32) -> Option<u8> {
    if rate == 125 {
        Some(0x08)
    } else if rate == 250 {
        Some(0x04)
    } else if rate == 333 {
        Some(0x03)
    } else if rate == 500 {
        Some(0x02)
    } else if rate == 1000 {
        Some(0x01)
    } else {
        None
    }
}

/// The byte that stands for a report rate; only five have one.
pub fn encode_rate(rate: u32) -> (r: Option<u8>)
    ensures
        r == rate_code(rate),
{
    match rate {
        125 => Some(0x08),
        250 => Some(0x04),
        333 => Some(0x03),
        500 => Some(0x02),
        1000 => Some(0x01),
        _ => None,
    }
}

/// The command that sets the resolution.
pub fn build_dpi_cmd(encoded: u8) -> (r: [u8; 8])
    ensures
        r@ == seq![0x02u8, 0x06, 0xbb, 0xaa, 0x32, 0x00, encoded, 0x00],
{
    let r: [u8; 8] = [0x02, 0x06, 0xbb, 0xaa, 0x32, 0x00, encoded, 0x00];
    assert(r@ =~= seq![0x02u8, 0x06, 0xbb, 0xaa, 0x32, 0x00, encoded, 0x00]);
    r
}

/// The command that sets the report rate.
pub fn build_rate_cmd(encoded: u8) -> (r: [u8; 8])
    ensures
        r@ == seq![0x02u8, 0x06, 0xbb, 0xaa, 0x28, 0x00, encoded, 0x00],
{
    let r: [u8; 8] = [0x02, 0x06, 0xbb, 0xaa, 0x28, 0x00, encoded, 0x00];
    assert(r@ =~= seq![0x02u8, 0x06, 0xbb, 0xaa, 0x28, 0x00, encoded, 0x00]);
    r
}

/// A byte stands for one resolution and for one report rate at most.
pub proof fn codes_are_distinct(a: u32, b: u32)
    ensures
        dpi_code(a) is Some && dpi_code(a) == dpi_code(b) ==> a == b,
        rate_code(a) is Some && rate_code(a) == rate_code(b) ==> a == b,
{
}

/// The byte of a report rate is the interval in milliseconds.
pub proof fn rate_code_is_the_interval(rate: u32)
    requires
        rate_code(rate) is Some,
    ensures
        rate_code(rate) == Some((1000u32 / rate) as u8),
{
    assert(1000u32 / rate == rate_code(rate)->0) by (nonlinear_arith)
        requires
            rate == 125 && rate_code(rate)->0 == 8 || rate == 250 && rate_code(rate)->0 == 4 || rate
                == 333 && rate_code(rate)->0 == 3 || rate == 500 && rate_code(rate)->0 == 2 || rate
                == 1000 && rate_code(rate)->0 == 1,
    ;
}

} // verus!
