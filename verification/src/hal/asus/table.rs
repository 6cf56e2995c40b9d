//! What the codes of the hardware stand for.

use crate::engine::device::ActionType;
use crate::engine::special_action as sa;
use vstd::prelude::*;

verus! {

pub const KEY_ESC: u32 = 1;

pub const KEY_1: u32 = 2;

pub const KEY_2: u32 = 3;

pub const KEY_3: u32 = 4;

pub const KEY_4: u32 = 5;

pub const KEY_5: u32 = 6;

pub const KEY_6: u32 = 7;

pub const KEY_7: u32 = 8;

pub const KEY_8: u32 = 9;

pub const KEY_9: u32 = 10;

pub const KEY_0: u32 = 11;

pub const KEY_MINUS: u32 = 12;

pub const KEY_EQUAL: u32 = 13;

pub const KEY_BACKSPACE: u32 = 14;

pub const KEY_TAB: u32 = 15;

pub const KEY_Q: u32 = 16;

pub const KEY_W: u32 = 17;

pub const KEY_E: u32 = 18;

pub const KEY_R: u32 = 19;

pub const KEY_T: u32 = 20;

pub const KEY_Y: u32 = 21;

pub const KEY_U: u32 = 22;

pub const KEY_I: u32 = 23;

pub const KEY_O: u32 = 24;

pub const KEY_P: u32 = 25;

pub const KEY_A: u32 = 30;

pub const KEY_S: u32 = 31;

pub const KEY_D: u32 = 32;

pub const KEY_F: u32 = 33;

pub const KEY_G: u32 = 34;

pub const KEY_H: u32 = 35;

pub const KEY_J: u32 = 36;

pub const KEY_K: u32 = 37;

pub const KEY_L: u32 = 38;

pub const KEY_GRAVE: u32 = 41;

pub const KEY_Z: u32 = 44;

pub const KEY_X: u32 = 45;

pub const KEY_C: u32 = 46;

pub const KEY_V: u32 = 47;

pub const KEY_B: u32 = 48;

pub const KEY_N: u32 = 49;

pub const KEY_M: u32 = 50;

pub const KEY_SLASH: u32 = 53;

pub const KEY_SPACE: u32 = 57;

pub const KEY_F1: u32 = 59;

pub const KEY_F2: u32 = 60;

pub const KEY_F3: u32 = 61;

pub const KEY_F4: u32 = 62;

pub const KEY_F5: u32 = 63;

pub const KEY_F6: u32 = 64;

pub const KEY_F7: u32 = 65;

pub const KEY_F8: u32 = 66;

pub const KEY_F9: u32 = 67;

pub const KEY_F10: u32 = 68;

pub const KEY_KP7: u32 = 71;

pub const KEY_KP8: u32 = 72;

pub const KEY_KP9: u32 = 73;

pub const KEY_KP4: u32 = 75;

pub const KEY_KP5: u32 = 76;

pub const KEY_KP6: u32 = 77;

pub const KEY_KPPLUS: u32 = 78;

pub const KEY_KP1: u32 = 79;

pub const KEY_KP2: u32 = 80;

pub const KEY_KP3: u32 = 81;

pub const KEY_F11: u32 = 87;

pub const KEY_F12: u32 = 88;

pub const KEY_UP: u32 = 103;

pub const KEY_PAGEUP: u32 = 104;

pub const KEY_LEFT: u32 = 105;

pub const KEY_RIGHT: u32 = 106;

pub const KEY_DOWN: u32 = 108;

pub const KEY_PAGEDOWN: u32 = 109;

pub const KEY_DELETE: u32 = 111;

pub const KEY_HOME: u32 = 102;

pub const KEY_ENTER: u32 = 28;

/// What a button code stands for.
#[derive(Debug, Clone, Copy, PartialEq, Eq, Structural)]
pub enum AsusButtonKind {
    /// No action of ratbag.
    Unassigned,
    /// A mouse button, counted from 1.
    Button(u32),
    /// A special action.
    Special(u32),
    /// An axis of the joystick.
    Joystick,
}

/// A button code and what it stands for.
#[derive(Debug, Clone, Copy, PartialEq, Eq, Structural)]
pub struct AsusButtonEntry {
    pub asus_code: u8,
    pub kind: AsusButtonKind,
}

/// The button codes, in the order in which they are searched.
pub open spec fn button_codes() -> Seq<u8> {
    seq![
        0xf0u8,
        0xf1,
        0xf2,
        0xe8,
        0xe9,
        0xe6,
        0xe4,
        0xe5,
        0xe1,
        0xe2,
        0xe7,
        0xea,
        0xeb,
        0xec,
        0xed,
        0xee,
        0xef,
        0xd0,
        0xd1,
        0xd2,
        0xd3,
        0xd7,
        0xd8,
        0xda,
        0xdb,
    ]
}

/// What a button code stands for.
pub open spec fn kind_of_code(code: u8) -> Option<AsusButtonKind> {
    match code {
        0xf0 => Some(AsusButtonKind::Button(1)),
        0xf1 => Some(AsusButtonKind::Button(2)),
        0xf2 => Some(AsusButtonKind::Button(3)),
        0xe8 => Some(AsusButtonKind::Special(sa::WHEEL_UP)),
        0xe9 => Some(AsusButtonKind::Special(sa::WHEEL_DOWN)),
        0xe6 => Some(AsusButtonKind::Special(sa::RESOLUTION_CYCLE_UP)),
        0xe4 => Some(AsusButtonKind::Button(4)),
        0xe5 => Some(AsusButtonKind::Button(5)),
        0xe1 => Some(AsusButtonKind::Button(4)),
        0xe2 => Some(AsusButtonKind::Button(5)),
        0xe7 => Some(AsusButtonKind::Special(sa::RESOLUTION_ALTERNATE)),
        0xea => Some(AsusButtonKind::Unassigned),
        0xeb => Some(AsusButtonKind::Unassigned),
        0xec => Some(AsusButtonKind::Unassigned),
        0xed => Some(AsusButtonKind::Unassigned),
        0xee => Some(AsusButtonKind::Unassigned),
        0xef => Some(AsusButtonKind::Unassigned),
        0xd0 => Some(AsusButtonKind::Joystick),
        0xd1 => Some(AsusButtonKind::Joystick),
        0xd2 => Some(AsusButtonKind::Joystick),
        0xd3 => Some(AsusButtonKind::Joystick),
        0xd7 => Some(AsusButtonKind::Special(sa::WHEEL_DOWN)),
        0xd8 => Some(AsusButtonKind::Special(sa::WHEEL_UP)),
        0xda => Some(AsusButtonKind::Special(sa::WHEEL_RIGHT)),
        0xdb => Some(AsusButtonKind::Special(sa::WHEEL_LEFT)),
        _ => None,
    }
}

pub(crate) fn button_code_list() -> (r: [u8; 25])
    ensures
        r@ == button_codes(),
{
    let r: [u8; 25] = [
        0xf0u8,
        0xf1,
        0xf2,
        0xe8,
        0xe9,
        0xe6,
        0xe4,
        0xe5,
        0xe1,
        0xe2,
        0xe7,
        0xea,
        0xeb,
        0xec,
        0xed,
        0xee,
        0xef,
        0xd0,
        0xd1,
        0xd2,
        0xd3,
        0xd7,
        0xd8,
        0xda,
        0xdb,
    ];
    assert(r@ =~= button_codes());
    r
}

/// Finds what a button code stands for.
pub fn find_button_by_code(code: u8) -> (r: Option<AsusButtonEntry>)
    ensures
        match kind_of_code(code) {
            Some(kind) => r == Some(AsusButtonEntry { asus_code: code, kind }),
            None => r is None,
        },
{
    let kind: Option<AsusButtonKind> = match code {
        0xf0 => Some(AsusButtonKind::Button(1)),
        0xf1 => Some(AsusButtonKind::Button(2)),
        0xf2 => Some(AsusButtonKind::Button(3)),
        0xe8 => Some(AsusButtonKind::Special(sa::WHEEL_UP)),
        0xe9 => Some(AsusButtonKind::Special(sa::WHEEL_DOWN)),
        0xe6 => Some(AsusButtonKind::Special(sa::RESOLUTION_CYCLE_UP)),
        0xe4 => Some(AsusButtonKind::Button(4)),
        0xe5 => Some(AsusButtonKind::Button(5)),
        0xe1 => Some(AsusButtonKind::Button(4)),
        0xe2 => Some(AsusButtonKind::Button(5)),
        0xe7 => Some(AsusButtonKind::Special(sa::RESOLUTION_ALTERNATE)),
        0xea => Some(AsusButtonKind::Unassigned),
        0xeb => Some(AsusButtonKind::Unassigned),
        0xec => Some(AsusButtonKind::Unassigned),
        0xed => Some(AsusButtonKind::Unassigned),
        0xee => Some(AsusButtonKind::Unassigned),
        0xef => Some(AsusButtonKind::Unassigned),
        0xd0 => Some(AsusButtonKind::Joystick),
        0xd1 => Some(AsusButtonKind::Joystick),
        0xd2 => Some(AsusButtonKind::Joystick),
        0xd3 => Some(AsusButtonKind::Joystick),
        0xd7 => Some(AsusButtonKind::Special(sa::WHEEL_DOWN)),
        0xd8 => Some(AsusButtonKind::Special(sa::WHEEL_UP)),
        0xda => Some(AsusButtonKind::Special(sa::WHEEL_RIGHT)),
        0xdb => Some(AsusButtonKind::Special(sa::WHEEL_LEFT)),
        _ => None,
    };
    match kind {
        Some(k) => Some(AsusButtonEntry { asus_code: code, kind: k }),
        None => None,
    }
}

/// Whether a code belongs to the joystick.
pub open spec fn joystick(code: u8) -> bool {
    code == 0xd0 || code == 0xd1 || code == 0xd2 || code == 0xd3 || code == 0xd7 || code == 0xd8
        || code == 0xda || code == 0xdb
}

/// Whether a code belongs to the joystick.
pub fn is_joystick_code(code: u8) -> (r: bool)
    ensures
        r == joystick(code),
{
    code == 0xd0 || code == 0xd1 || code == 0xd2 || code == 0xd3 || code == 0xd7 || code == 0xd8
        || code == 0xda || code == 0xdb
}

/// Whether a code, of the joystick or not, performs an action.
pub open spec fn performs(code: u8, action: ActionType, value: u32, is_joystick: bool) -> bool {
    joystick(code) == is_joystick && match (action, kind_of_code(code)) {
        (ActionType::Button, Some(AsusButtonKind::Button(n))) => n == value,
        (ActionType::Special, Some(AsusButtonKind::Special(n))) => n == value,
        _ => false,
    }
}

/// Whether the code at place `i` is the first that performs an action.
pub open spec fn first_performing(i: int, action: ActionType, value: u32, is_joystick: bool) -> bool {
    &&& 0 <= i < button_codes().len()
    &&& performs(button_codes()[i], action, value, is_joystick)
    &&& forall|j: int|
        0 <= j < i ==> !performs(#[trigger] button_codes()[j], action, value, is_joystick)
}

/// The code that performs an action: the first in the order of the codes.
pub open spec fn code_for_action(action: ActionType, value: u32, is_joystick: bool) -> Option<u8> {
    if exists|i: int| first_performing(i, action, value, is_joystick) {
        Some(button_codes()[choose|i: int| first_performing(i, action, value, is_joystick)])
    } else {
        None
    }
}

/// Finds the code that performs an action, among those of the joystick or among
/// the others.
pub fn find_button_by_action(action_type: ActionType, value: u32, is_joystick: bool) -> (r: Option<
    AsusButtonEntry,
>)
    ensures
        match code_for_action(action_type, value, is_joystick) {
            Some(code) => r is Some && r->0.asus_code == code && Some(r->0.kind) == kind_of_code(
                code,
            ),
            None => r is None,
        },
{
    let codes: [u8; 25] = button_code_list();
    let mut i: usize = 0;
    while i < 25
        invariant
            i <= 25,
            codes@ == button_codes(),
            forall|j: int|
                0 <= j < i ==> !performs(
                    #[trigger] button_codes()[j],
                    action_type,
                    value,
                    is_joystick,
                ),
        decreases 25 - i,
    {
        let code: u8 = codes[i];
        assert(code == button_codes()[i as int]);
        if is_joystick_code(code) == is_joystick {
            match find_button_by_code(code) {
                Some(e) => {
                    let hit: bool = match (action_type, e.kind) {
                        (ActionType::Button, AsusButtonKind::Button(n)) => n == value,
                        (ActionType::Special, AsusButtonKind::Special(n)) => n == value,
                        _ => false,
                    };
                    if hit {
                        proof {
                            let k = choose|k: int|
                                first_performing(k, action_type, value, is_joystick);
                            assert(first_performing(i as int, action_type, value, is_joystick));
                            assert(k == i);
                        }
                        return Some(e);
                    }
                },
                None => {},
            }
        }
        i += 1;
    }
    None
}

/// The Linux key code that a hardware key code stands for; 0 for none.
pub open spec fn linux_key(asus_code: u8) -> u32 {
    match asus_code {
        0x04 => KEY_A,
        0x05 => KEY_B,
        0x06 => KEY_C,
        0x07 => KEY_D,
        0x08 => KEY_E,
        0x09 => KEY_F,
        0x0a => KEY_G,
        0x0b => KEY_H,
        0x0c => KEY_I,
        0x0d => KEY_J,
        0x0e => KEY_K,
        0x0f => KEY_L,
        0x10 => KEY_M,
        0x11 => KEY_N,
        0x12 => KEY_O,
        0x13 => KEY_P,
        0x14 => KEY_Q,
        0x15 => KEY_R,
        0x16 => KEY_S,
        0x17 => KEY_T,
        0x18 => KEY_U,
        0x19 => KEY_V,
        0x1a => KEY_W,
        0x1b => KEY_X,
        0x1c => KEY_Y,
        0x1d => KEY_Z,
        0x1e => KEY_1,
        0x1f => KEY_2,
        0x20 => KEY_3,
        0x21 => KEY_4,
        0x22 => KEY_5,
        0x23 => KEY_6,
        0x24 => KEY_7,
        0x25 => KEY_8,
        0x26 => KEY_9,
        0x27 => KEY_0,
        0x28 => KEY_ENTER,
        0x29 => KEY_ESC,
        0x2a => KEY_BACKSPACE,
        0x2b => KEY_TAB,
        0x2c => KEY_SPACE,
        0x2d => KEY_MINUS,
        0x2e => KEY_KPPLUS,
        0x35 => KEY_GRAVE,
        0x36 => KEY_EQUAL,
        0x38 => KEY_SLASH,
        0x3a => KEY_F1,
        0x3b => KEY_F2,
        0x3c => KEY_F3,
        0x3d => KEY_F4,
        0x3e => KEY_F5,
        0x3f => KEY_F6,
        0x40 => KEY_F7,
        0x41 => KEY_F8,
        0x42 => KEY_F9,
        0x43 => KEY_F10,
        0x44 => KEY_F11,
        0x45 => KEY_F12,
        0x4a => KEY_HOME,
        0x4b => KEY_PAGEUP,
        0x4c => KEY_DELETE,
        0x4e => KEY_PAGEDOWN,
        0x4f => KEY_RIGHT,
        0x50 => KEY_LEFT,
        0x51 => KEY_DOWN,
        0x52 => KEY_UP,
        0x59 => KEY_KP1,
        0x5a => KEY_KP2,
        0x5b => KEY_KP3,
        0x5c => KEY_KP4,
        0x5d => KEY_KP5,
        0x5e => KEY_KP6,
        0x5f => KEY_KP7,
        0x60 => KEY_KP8,
        0x61 => KEY_KP9,
        _ => 0,
    }
}

/// Converts a hardware key code to a Linux key code.
pub fn get_linux_key_code(asus_code: u8) -> (r: Option<u32>)
    ensures
        r == (if linux_key(asus_code) == 0 {
            None
        } else {
            Some(linux_key(asus_code))
        }),
{
    let val: u32 = match asus_code {
        0x04 => KEY_A,
        0x05 => KEY_B,
        0x06 => KEY_C,
        0x07 => KEY_D,
        0x08 => KEY_E,
        0x09 => KEY_F,
        0x0a => KEY_G,
        0x0b => KEY_H,
        0x0c => KEY_I,
        0x0d => KEY_J,
        0x0e => KEY_K,
        0x0f => KEY_L,
        0x10 => KEY_M,
        0x11 => KEY_N,
        0x12 => KEY_O,
        0x13 => KEY_P,
        0x14 => KEY_Q,
        0x15 => KEY_R,
        0x16 => KEY_S,
        0x17 => KEY_T,
        0x18 => KEY_U,
        0x19 => KEY_V,
        0x1a => KEY_W,
        0x1b => KEY_X,
        0x1c => KEY_Y,
        0x1d => KEY_Z,
        0x1e => KEY_1,
        0x1f => KEY_2,
        0x20 => KEY_3,
        0x21 => KEY_4,
        0x22 => KEY_5,
        0x23 => KEY_6,
        0x24 => KEY_7,
        0x25 => KEY_8,
        0x26 => KEY_9,
        0x27 => KEY_0,
        0x28 => KEY_ENTER,
        0x29 => KEY_ESC,
        0x2a => KEY_BACKSPACE,
        0x2b => KEY_TAB,
        0x2c => KEY_SPACE,
        0x2d => KEY_MINUS,
        0x2e => KEY_KPPLUS,
        0x35 => KEY_GRAVE,
        0x36 => KEY_EQUAL,
        0x38 => KEY_SLASH,
        0x3a => KEY_F1,
        0x3b => KEY_F2,
        0x3c => KEY_F3,
        0x3d => KEY_F4,
        0x3e => KEY_F5,
        0x3f => KEY_F6,
        0x40 => KEY_F7,
        0x41 => KEY_F8,
        0x42 => KEY_F9,
        0x43 => KEY_F10,
        0x44 => KEY_F11,
        0x45 => KEY_F12,
        0x4a => KEY_HOME,
        0x4b => KEY_PAGEUP,
        0x4c => KEY_DELETE,
        0x4e => KEY_PAGEDOWN,
        0x4f => KEY_RIGHT,
        0x50 => KEY_LEFT,
        0x51 => KEY_DOWN,
        0x52 => KEY_UP,
        0x59 => KEY_KP1,
        0x5a => KEY_KP2,
        0x5b => KEY_KP3,
        0x5c => KEY_KP4,
        0x5d => KEY_KP5,
        0x5e => KEY_KP6,
        0x5f => KEY_KP7,
        0x60 => KEY_KP8,
        0x61 => KEY_KP9,
        _ => 0,
    };
    if val == 0 {
        None
    } else {
        Some(val)
    }
}

/// The hardware key code that a Linux key code is written as. The code 0 stands
/// at the head of the table of unused codes.
pub open spec fn asus_key(linux_code: u32) -> Option<u8> {
    if linux_code == KEY_A {
        Some(0x04)
    } else if linux_code == KEY_B {
        Some(0x05)
    } else if linux_code == KEY_C {
        Some(0x06)
    } else if linux_code == KEY_D {
        Some(0x07)
    } else if linux_code == KEY_E {
        Some(0x08)
    } else if linux_code == KEY_F {
        Some(0x09)
    } else if linux_code == KEY_G {
        Some(0x0a)
    } else if linux_code == KEY_H {
        Some(0x0b)
    } else if linux_code == KEY_I {
        Some(0x0c)
    } else if linux_code == KEY_J {
        Some(0x0d)
    } else if linux_code == KEY_K {
        Some(0x0e)
    } else if linux_code == KEY_L {
        Some(0x0f)
    } else if linux_code == KEY_M {
        Some(0x10)
    } else if linux_code == KEY_N {
        Some(0x11)
    } else if linux_code == KEY_O {
        Some(0x12)
    } else if linux_code == KEY_P {
        Some(0x13)
    } else if linux_code == KEY_Q {
        Some(0x14)
    } else if linux_code == KEY_R {
        Some(0x15)
    } else if linux_code == KEY_S {
        Some(0x16)
    } else if linux_code == KEY_T {
        Some(0x17)
    } else if linux_code == KEY_U {
        Some(0x18)
    } else if linux_code == KEY_V {
        Some(0x19)
    } else if linux_code == KEY_W {
        Some(0x1a)
    } else if linux_code == KEY_X {
        Some(0x1b)
    } else if linux_code == KEY_Y {
        Some(0x1c)
    } else if linux_code == KEY_Z {
        Some(0x1d)
    } else if linux_code == KEY_1 {
        Some(0x1e)
    } else if linux_code == KEY_2 {
        Some(0x1f)
    } else if linux_code == KEY_3 {
        Some(0x20)
    } else if linux_code == KEY_4 {
        Some(0x21)
    } else if linux_code == KEY_5 {
        Some(0x22)
    } else if linux_code == KEY_6 {
        Some(0x23)
    } else if linux_code == KEY_7 {
        Some(0x24)
    } else if linux_code == KEY_8 {
        Some(0x25)
    } else if linux_code == KEY_9 {
        Some(0x26)
    } else if linux_code == KEY_0 {
        Some(0x27)
    } else if linux_code == KEY_ENTER {
        Some(0x28)
    } else if linux_code == KEY_ESC {
        Some(0x29)
    } else if linux_code == KEY_BACKSPACE {
        Some(0x2a)
    } else if linux_code == KEY_TAB {
        Some(0x2b)
    } else if linux_code == KEY_SPACE {
        Some(0x2c)
    } else if linux_code == KEY_MINUS {
        Some(0x2d)
    } else if linux_code == KEY_KPPLUS {
        Some(0x2e)
    } else if linux_code == KEY_GRAVE {
        Some(0x35)
    } else if linux_code == KEY_EQUAL {
        Some(0x36)
    } else if linux_code == KEY_SLASH {
        Some(0x38)
    } else if linux_code == KEY_F1 {
        Some(0x3a)
    } else if linux_code == KEY_F2 {
        Some(0x3b)
    } else if linux_code == KEY_F3 {
        Some(0x3c)
    } else if linux_code == KEY_F4 {
        Some(0x3d)
    } else if linux_code == KEY_F5 {
        Some(0x3e)
    } else if linux_code == KEY_F6 {
        Some(0x3f)
    } else if linux_code == KEY_F7 {
        Some(0x40)
    } else if linux_code == KEY_F8 {
        Some(0x41)
    } else if linux_code == KEY_F9 {
        Some(0x42)
    } else if linux_code == KEY_F10 {
        Some(0x43)
    } else if linux_code == KEY_F11 {
        Some(0x44)
    } else if linux_code == KEY_F12 {
        Some(0x45)
    } else if linux_code == KEY_HOME {
        Some(0x4a)
    } else if linux_code == KEY_PAGEUP {
        Some(0x4b)
    } else if linux_code == KEY_DELETE {
        Some(0x4c)
    } else if linux_code == KEY_PAGEDOWN {
        Some(0x4e)
    } else if linux_code == KEY_RIGHT {
        Some(0x4f)
    } else if linux_code == KEY_LEFT {
        Some(0x50)
    } else if linux_code == KEY_DOWN {
        Some(0x51)
    } else if linux_code == KEY_UP {
        Some(0x52)
    } else if linux_code == KEY_KP1 {
        Some(0x59)
    } else if linux_code == KEY_KP2 {
        Some(0x5a)
    } else if linux_code == KEY_KP3 {
        Some(0x5b)
    } else if linux_code == KEY_KP4 {
        Some(0x5c)
    } else if linux_code == KEY_KP5 {
        Some(0x5d)
    } else if linux_code == KEY_KP6 {
        Some(0x5e)
    } else if linux_code == KEY_KP7 {
        Some(0x5f)
    } else if linux_code == KEY_KP8 {
        Some(0x60)
    } else if linux_code == KEY_KP9 {
        Some(0x61)
    } else if linux_code == 0 {
        Some(0)
    } else {
        None
    }
}

/// Converts a Linux key code to a hardware key code.
pub fn find_key_code(linux_code: u32) -> (r: Option<u8>)
    ensures
        r == asus_key(linux_code),
{
    if linux_code == KEY_A {
        Some(0x04)
    } else if linux_code == KEY_B {
        Some(0x05)
    } else if linux_code == KEY_C {
        Some(0x06)
    } else if linux_code == KEY_D {
        Some(0x07)
    } else if linux_code == KEY_E {
        Some(0x08)
    } else if linux_code == KEY_F {
        Some(0x09)
    } else if linux_code == KEY_G {
        Some(0x0a)
    } else if linux_code == KEY_H {
        Some(0x0b)
    } else if linux_code == KEY_I {
        Some(0x0c)
    } else if linux_code == KEY_J {
        Some(0x0d)
    } else if linux_code == KEY_K {
        Some(0x0e)
    } else if linux_code == KEY_L {
        Some(0x0f)
    } else if linux_code == KEY_M {
        Some(0x10)
    } else if linux_code == KEY_N {
        Some(0x11)
    } else if linux_code == KEY_O {
        Some(0x12)
    } else if linux_code == KEY_P {
        Some(0x13)
    } else if linux_code == KEY_Q {
        Some(0x14)
    } else if linux_code == KEY_R {
        Some(0x15)
    } else if linux_code == KEY_S {
        Some(0x16)
    } else if linux_code == KEY_T {
        Some(0x17)
    } else if linux_code == KEY_U {
        Some(0x18)
    } else if linux_code == KEY_V {
        Some(0x19)
    } else if linux_code == KEY_W {
        Some(0x1a)
    } else if linux_code == KEY_X {
        Some(0x1b)
    } else if linux_code == KEY_Y {
        Some(0x1c)
    } else if linux_code == KEY_Z {
        Some(0x1d)
    } else if linux_code == KEY_1 {
        Some(0x1e)
    } else if linux_code == KEY_2 {
        Some(0x1f)
    } else if linux_code == KEY_3 {
        Some(0x20)
    } else if linux_code == KEY_4 {
        Some(0x21)
    } else if linux_code == KEY_5 {
        Some(0x22)
    } else if linux_code == KEY_6 {
        Some(0x23)
    } else if linux_code == KEY_7 {
        Some(0x24)
    } else if linux_code == KEY_8 {
        Some(0x25)
    } else if linux_code == KEY_9 {
        Some(0x26)
    } else if linux_code == KEY_0 {
        Some(0x27)
    } else if linux_code == KEY_ENTER {
        Some(0x28)
    } else if linux_code == KEY_ESC {
        Some(0x29)
    } else if linux_code == KEY_BACKSPACE {
        Some(0x2a)
    } else if linux_code == KEY_TAB {
        Some(0x2b)
    } else if linux_code == KEY_SPACE {
        Some(0x2c)
    } else if linux_code == KEY_MINUS {
        Some(0x2d)
    } else if linux_code == KEY_KPPLUS {
        Some(0x2e)
    } else if linux_code == KEY_GRAVE {
        Some(0x35)
    } else if linux_code == KEY_EQUAL {
        Some(0x36)
    } else if linux_code == KEY_SLASH {
        Some(0x38)
    } else if linux_code == KEY_F1 {
        Some(0x3a)
    } else if linux_code == KEY_F2 {
        Some(0x3b)
    } else if linux_code == KEY_F3 {
        Some(0x3c)
    } else if linux_code == KEY_F4 {
        Some(0x3d)
    } else if linux_code == KEY_F5 {
        Some(0x3e)
    } else if linux_code == KEY_F6 {
        Some(0x3f)
    } else if linux_code == KEY_F7 {
        Some(0x40)
    } else if linux_code == KEY_F8 {
        Some(0x41)
    } else if linux_code == KEY_F9 {
        Some(0x42)
    } else if linux_code == KEY_F10 {
        Some(0x43)
    } else if linux_code == KEY_F11 {
        Some(0x44)
    } else if linux_code == KEY_F12 {
        Some(0x45)
    } else if linux_code == KEY_HOME {
        Some(0x4a)
    } else if linux_code == KEY_PAGEUP {
        Some(0x4b)
    } else if linux_code == KEY_DELETE {
        Some(0x4c)
    } else if linux_code == KEY_PAGEDOWN {
        Some(0x4e)
    } else if linux_code == KEY_RIGHT {
        Some(0x4f)
    } else if linux_code == KEY_LEFT {
        Some(0x50)
    } else if linux_code == KEY_DOWN {
        Some(0x51)
    } else if linux_code == KEY_UP {
        Some(0x52)
    } else if linux_code == KEY_KP1 {
        Some(0x59)
    } else if linux_code == KEY_KP2 {
        Some(0x5a)
    } else if linux_code == KEY_KP3 {
        Some(0x5b)
    } else if linux_code == KEY_KP4 {
        Some(0x5c)
    } else if linux_code == KEY_KP5 {
        Some(0x5d)
    } else if linux_code == KEY_KP6 {
        Some(0x5e)
    } else if linux_code == KEY_KP7 {
        Some(0x5f)
    } else if linux_code == KEY_KP8 {
        Some(0x60)
    } else if linux_code == KEY_KP9 {
        Some(0x61)
    } else if linux_code == 0 {
        Some(0)
    } else {
        None
    }
}

/// A Linux key code that the hardware has survives the trip through it.
pub proof fn linux_key_round_trip(linux_code: u32)
    ensures
        linux_code != 0 && asus_key(linux_code) is Some ==> linux_key(asus_key(linux_code)->0)
            == linux_code,
{
}

/// A hardware key code that is in use survives the trip through the Linux code.
pub proof fn asus_key_round_trip(asus_code: u8)
    ensures
        linux_key(asus_code) != 0 ==> asus_key(linux_key(asus_code)) == Some(asus_code),
{
}

/// The code found for an action performs that action.
pub proof fn code_for_action_performs(action: ActionType, value: u32, is_joystick: bool)
    ensures
        code_for_action(action, value, is_joystick) is Some ==> performs(
            code_for_action(action, value, is_joystick)->0,
            action,
            value,
            is_joystick,
        ),
{
}

} // verus!
