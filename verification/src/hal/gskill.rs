//! G.Skill mice: the layout of their reports. Profiles cannot be loaded or
//! written yet.

use vstd::prelude::*;

verus! {

pub const GSKILL_MIN_DPI: u32 = 100;

pub const GSKILL_MAX_DPI: u32 = 8200;

pub const GSKILL_DPI_UNIT: u32 = 50;

pub const GSKILL_GET_CURRENT_PROFILE_NUM: u8 = 0x03;

pub const GSKILL_CMD_SUCCESS: u8 = 0xb0;

pub const GSKILL_CMD_IDLE: u8 = 0xb3;

pub const KBD_MOD_CTRL_LEFT: u8 = 0x01;

pub const KBD_MOD_SHIFT_LEFT: u8 = 0x02;

pub const KBD_MOD_ALT_LEFT: u8 = 0x04;

pub const KBD_MOD_SUPER_LEFT: u8 = 0x08;

pub const KBD_MOD_CTRL_RIGHT: u8 = 0x10;

pub const KBD_MOD_SHIFT_RIGHT: u8 = 0x20;

pub const KBD_MOD_ALT_RIGHT: u8 = 0x40;

pub const KBD_MOD_SUPER_RIGHT: u8 = 0x80;

/// What an LED does.
#[derive(Debug, Clone, Copy, PartialEq, Eq, Structural)]
pub enum LedControlType {
    AllOff,
    AllOn,
    Breathing,
    DpiLedRightCycle,
    DpiLedLeftCycle,
}

impl LedControlType {
    /// The byte that stands for this type.
    pub open spec fn code(self) -> u8 {
        match self {
            LedControlType::AllOff => 0x0,
            LedControlType::AllOn => 0x1,
            LedControlType::Breathing => 0x2,
            LedControlType::DpiLedRightCycle => 0x3,
            LedControlType::DpiLedLeftCycle => 0x4,
        }
    }

    /// The byte that stands for this type.
    pub fn to_byte(self) -> (r: u8)
        ensures
            r == self.code(),
    {
        match self {
            LedControlType::AllOff => 0x0,
            LedControlType::AllOn => 0x1,
            LedControlType::Breathing => 0x2,
            LedControlType::DpiLedRightCycle => 0x3,
            LedControlType::DpiLedLeftCycle => 0x4,
        }
    }
}

/// What a button does.
#[derive(Debug, Clone, Copy, PartialEq, Eq, Structural)]
pub enum ButtonFunctionType {
    Wheel,
    Mouse,
    Kbd,
    Consumer,
    Macro,
    DpiUp,
    DpiDown,
    CycleDpiUp,
    CycleDpiDown,
    ProfileSwitch,
    TemporaryCpiAdjust,
    DirectDpiChange,
    CycleProfileUp,
    CycleProfileDown,
    Disable,
}

impl ButtonFunctionType {
    /// The byte that stands for this type.
    pub open spec fn code(self) -> u8 {
        match self {
            ButtonFunctionType::Wheel => 0x00,
            ButtonFunctionType::Mouse => 0x01,
            ButtonFunctionType::Kbd => 0x02,
            ButtonFunctionType::Consumer => 0x03,
            ButtonFunctionType::Macro => 0x06,
            ButtonFunctionType::DpiUp => 0x09,
            ButtonFunctionType::DpiDown => 0x0a,
            ButtonFunctionType::CycleDpiUp => 0x0b,
            ButtonFunctionType::CycleDpiDown => 0x0c,
            ButtonFunctionType::ProfileSwitch => 0x0d,
            ButtonFunctionType::TemporaryCpiAdjust => 0x15,
            ButtonFunctionType::DirectDpiChange => 0x16,
            ButtonFunctionType::CycleProfileUp => 0x18,
            ButtonFunctionType::CycleProfileDown => 0x19,
            ButtonFunctionType::Disable => 0xff,
        }
    }

    /// The byte that stands for this type.
    pub fn to_byte(self) -> (r: u8)
        ensures
            r == self.code(),
    {
        match self {
            ButtonFunctionType::Wheel => 0x00,
            ButtonFunctionType::Mouse => 0x01,
            ButtonFunctionType::Kbd => 0x02,
            ButtonFunctionType::Consumer => 0x03,
            ButtonFunctionType::Macro => 0x06,
            ButtonFunctionType::DpiUp => 0x09,
            ButtonFunctionType::DpiDown => 0x0a,
            ButtonFunctionType::CycleDpiUp => 0x0b,
            ButtonFunctionType::CycleDpiDown => 0x0c,
            ButtonFunctionType::ProfileSwitch => 0x0d,
            ButtonFunctionType::TemporaryCpiAdjust => 0x15,
            ButtonFunctionType::DirectDpiChange => 0x16,
            ButtonFunctionType::CycleProfileUp => 0x18,
            ButtonFunctionType::CycleProfileDown => 0x19,
            ButtonFunctionType::Disable => 0xff,
        }
    }
}

/// How a macro is run.
#[derive(Debug, Clone, Copy, PartialEq, Eq, Structural)]
pub enum MacroExecMethod {
    ButtonRelease,
    ButtonPress,
    ButtonLoopStart,
    ButtonLoopEnd,
}

impl MacroExecMethod {
    /// The byte that stands for this method.
    pub open spec fn code(self) -> u8 {
        match self {
            MacroExecMethod::ButtonRelease => 0x1,
            MacroExecMethod::ButtonPress => 0x5,
            MacroExecMethod::ButtonLoopStart => 0x7,
            MacroExecMethod::ButtonLoopEnd => 0x0,
        }
    }

    /// The byte that stands for this method.
    pub fn to_byte(self) -> (r: u8)
        ensures
            r == self.code(),
    {
        match self {
            MacroExecMethod::ButtonRelease => 0x1,
            MacroExecMethod::ButtonPress => 0x5,
            MacroExecMethod::ButtonLoopStart => 0x7,
            MacroExecMethod::ButtonLoopEnd => 0x0,
        }
    }
}

/// No two functions of a button share a byte.
pub proof fn function_codes_are_distinct(a: ButtonFunctionType, b: ButtonFunctionType)
    requires
        a.code() == b.code(),
    ensures
        a == b,
{
}

/// A resolution as the device stores it.
#[derive(Debug, Clone, Copy, PartialEq, Eq, Structural)]
pub struct RawDpiLevel {
    pub x: u8,
    pub y: u8,
}

impl Default for RawDpiLevel {
    fn default() -> (r: Self)
        ensures
            r == (RawDpiLevel { x: 0, y: 0 }),
    {
        RawDpiLevel { x: 0, y: 0 }
    }
}

/// A color.
#[derive(Debug, Clone, Copy, PartialEq, Eq, Structural)]
pub struct LedColor {
    pub red: u8,
    pub green: u8,
    pub blue: u8,
}

impl Default for LedColor {
    fn default() -> (r: Self)
        ensures
            r == (LedColor { red: 0, green: 0, blue: 0 }),
    {
        LedColor { red: 0, green: 0, blue: 0 }
    }
}

/// The brightness and the color of an LED.
#[derive(Debug, Clone, Copy, PartialEq, Eq, Structural)]
pub struct LedValues {
    pub brightness: u8,
    pub color: LedColor,
}

impl Default for LedValues {
    fn default() -> (r: Self)
        ensures
            r.brightness == 0,
            r.color == (LedColor { red: 0, green: 0, blue: 0 }),
    {
        LedValues { brightness: 0, color: LedColor::default() }
    }
}

/// The binding of a button.
#[derive(Debug, Clone, Copy)]
pub struct ButtonCfg {
    pub function_type: u8,
    /// What they mean depends on the function.
    pub params: [u8; 4],
}

impl Default for ButtonCfg {
    fn default() -> (r: Self)
        ensures
            r.function_type == 0,
            r.params@ == seq![0u8, 0, 0, 0],
    {
        let r = ButtonCfg { function_type: 0, params: [0u8; 4] };
        assert(r.params@ =~= seq![0u8, 0, 0, 0]);
        r
    }
}

/// Why a device cannot be used.
#[derive(Debug, Clone, Copy, PartialEq, Eq, Structural)]
pub enum GskillError {
    UnexpectedStatus { status: u8 },
    /// Profiles cannot be loaded or written yet.
    NotImplemented,
}

/// What was read from a device.
#[derive(Debug)]
pub struct GskillData {
    /// The reports of the profiles that were read.
    pub profiles: [Option<Box<[u8; 644]>>; 5],
    pub active_profile: u8,
}

/// Driver of G.Skill mice.
#[derive(Debug)]
pub struct GskillDriver {
    /// What was read from the device.
    pub data: Option<GskillData>,
}

impl GskillDriver {
    pub fn new() -> (r: Self)
        ensures
            r.data is None,
    {
        GskillDriver { data: None }
    }

    /// Takes the answer to the question for the current profile. The driver
    /// keeps it, and then gives up: there is no more that it can do.
    pub fn probed(&mut self, cmd: &[u8; 9]) -> (r: GskillError)
        ensures
            if cmd@[1] != GSKILL_CMD_SUCCESS && cmd@[1] != GSKILL_CMD_IDLE {
                &&& r == GskillError::UnexpectedStatus { status: cmd@[1] }
                &&& *final(self) == *old(self)
            } else {
                &&& r == GskillError::NotImplemented
                &&& final(self).data matches Some(d)
                &&& d.active_profile == cmd@[2] % 16
                &&& forall|i: int| 0 <= i < 5 ==> (#[trigger] d.profiles@[i]) is None
            },
    {
        let status: u8 = cmd[1];
        if status != GSKILL_CMD_SUCCESS && status != GSKILL_CMD_IDLE {
            return GskillError::UnexpectedStatus { status };
        }
        self.data = Some(
            GskillData { profiles: [None, None, None, None, None], active_profile: cmd[2] % 16 },
        );
        GskillError::NotImplemented
    }
}

/// The question for the current profile.
pub fn profile_query() -> (r: [u8; 9])
    ensures
        r@ == seq![GSKILL_GET_CURRENT_PROFILE_NUM, 0u8, 0, 0, 0, 0, 0, 0, 0],
{
    let mut r: [u8; 9] = [0u8; 9];
    r[0] = GSKILL_GET_CURRENT_PROFILE_NUM;
    assert(r@ =~= seq![GSKILL_GET_CURRENT_PROFILE_NUM, 0u8, 0, 0, 0, 0, 0, 0, 0]);
    r
}

/// The resolution that a byte stands for.
pub open spec fn dpi_of_raw(raw: u8) -> u32 {
    ((raw + 1) * 50) as u32
}

/// The resolutions, horizontal and vertical, that a stored pair stands for.
pub fn raw_to_dpi(raw: RawDpiLevel) -> (r: (u32, u32))
    ensures
        r.0 == dpi_of_raw(raw.x),
        r.1 == dpi_of_raw(raw.y),
{
    ((raw.x as u32 + 1) * GSKILL_DPI_UNIT, (raw.y as u32 + 1) * GSKILL_DPI_UNIT)
}

/// Whether a device can have a resolution.
pub open spec fn valid_dpi(dpi: u32) -> bool {
    GSKILL_MIN_DPI <= dpi <= GSKILL_MAX_DPI && dpi % GSKILL_DPI_UNIT == 0
}

/// The byte that stands for a resolution; only those from 100 to 8200 in steps
/// of 50 have one.
pub fn dpi_to_raw(dpi: u32) -> (r: Option<u8>)
    ensures
        match r {
            Some(raw) => valid_dpi(dpi) && raw == dpi / 50 - 1,
            None => !valid_dpi(dpi),
        },
{
    if dpi < GSKILL_MIN_DPI || dpi > GSKILL_MAX_DPI || dpi % GSKILL_DPI_UNIT != 0 {
        return None;
    }
    Some((dpi / GSKILL_DPI_UNIT - 1) as u8)
}

/// A resolution reads back as it was stored.
pub proof fn dpi_round_trip(dpi: u32)
    requires
        valid_dpi(dpi),
    ensures
        dpi_of_raw((dpi / 50 - 1) as u8) == dpi,
{
}

/// The exclusive or of the bytes from `i` up to `n`.
pub open spec fn xor_of(report: Seq<u8>, i: int, n: int) -> u8
    decreases n - i,
{
    if n <= i {
        0
    } else {
        xor_of(report, i, n - 1) ^ report[n - 1]
    }
}

/// The checksum of a report: the exclusive or of all that follows its place.
pub open spec fn checksum(report: Seq<u8>) -> u8 {
    xor_of(report, 4, report.len() as int)
}

/// The checksum of a report.
pub fn compute_checksum(report: &[u8]) -> (r: u8)
    requires
        report@.len() >= 4,
    ensures
        r == checksum(report@),
{
    let mut acc: u8 = 0;
    let mut i: usize = 4;
    while i < report.len()
        invariant
            4 <= i <= report@.len(),
            acc == xor_of(report@, 4, i as int),
        decreases report@.len() - i,
    {
        acc = acc ^ report[i];
        i += 1;
    }
    acc
}

proof fn lemma_xor_prefix(report: Seq<u8>, at: int, b: u8, n: int)
    requires
        4 <= n <= at < report.len(),
    ensures
        xor_of(report.update(at, b), 4, n) == xor_of(report, 4, n),
    decreases n,
{
    if n > 4 {
        lemma_xor_prefix(report, at, b, n - 1);
    }
}

proof fn lemma_xor_changes(report: Seq<u8>, at: int, b: u8, n: int)
    requires
        4 <= at < n <= report.len(),
        report[at] != b,
    ensures
        xor_of(report.update(at, b), 4, n) != xor_of(report, 4, n),
    decreases n,
{
    if n == at + 1 {
        lemma_xor_prefix(report, at, b, at);
        let acc = xor_of(report, 4, at);
        let a = report[at];
        assert(a != b ==> acc ^ a != acc ^ b) by (bit_vector);
    } else {
        lemma_xor_changes(report, at, b, n - 1);
        let x = xor_of(report, 4, n - 1);
        let y = xor_of(report.update(at, b), 4, n - 1);
        let c = report[n - 1];
        assert(x != y ==> x ^ c != y ^ c) by (bit_vector);
    }
}

/// A report in which one byte was changed has another checksum.
pub proof fn checksum_notices_a_change(report: Seq<u8>, at: int, b: u8)
    requires
        4 <= at < report.len(),
        report[at] != b,
    ensures
        checksum(report.update(at, b)) != checksum(report),
{
    lemma_xor_changes(report, at, b, report.len() as int);
}

/// The checksum does not depend on the bytes before it, nor on itself.
pub proof fn checksum_ignores_its_place(report: Seq<u8>, at: int, b: u8)
    requires
        0 <= at < 4,
        at < report.len(),
    ensures
        checksum(report.update(at, b)) == checksum(report),
{
    lemma_xor_ignores(report, at, b, report.len() as int);
}

proof fn lemma_xor_ignores(report: Seq<u8>, at: int, b: u8, n: int)
    requires
        0 <= at < 4,
        at < report.len(),
        n <= report.len(),
    ensures
        xor_of(report.update(at, b), 4, n) == xor_of(report, 4, n),
    decreases n,
{
    if n > 4 {
        lemma_xor_ignores(report, at, b, n - 1);
    }
}

} // verus!
