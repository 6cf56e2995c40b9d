//! What the bytes of a profile report stand for.

use crate::engine::device;
use crate::engine::device::ActionType;
use crate::engine::special_action;
use crate::hal::logitech_g600::report;
use crate::hal::logitech_g600::report::ButtonEntry;
use vstd::prelude::*;

verus! {

pub const DPI_MIN: u32 = 200;

pub const DPI_MAX: u32 = 8200;

/// The action that a code stands for.
pub open spec fn action_of_code(code: u8) -> Option<(ActionType, u32)> {
    if 1 <= code <= 5 {
        Some((ActionType::Button, code as u32))
    } else if code == 0x11 {
        Some((ActionType::Special, special_action::RESOLUTION_UP))
    } else if code == 0x12 {
        Some((ActionType::Special, special_action::RESOLUTION_DOWN))
    } else if code == 0x13 {
        Some((ActionType::Special, special_action::RESOLUTION_CYCLE_UP))
    } else if code == 0x14 {
        Some((ActionType::Special, special_action::PROFILE_CYCLE_UP))
    } else if code == 0x15 {
        Some((ActionType::Special, special_action::RESOLUTION_ALTERNATE))
    } else if code == 0x17 {
        Some((ActionType::Special, special_action::SECOND_MODE))
    } else {
        None
    }
}

/// The code of an action; 0 for one that has none.
pub open spec fn code_of_action(action: ActionType, value: u32) -> u8 {
    match action {
        ActionType::Button => if 1 <= value <= 5 {
            value as u8
        } else {
            0
        },
        ActionType::Special => if value == special_action::RESOLUTION_UP {
            0x11
        } else if value == special_action::RESOLUTION_DOWN {
            0x12
        } else if value == special_action::RESOLUTION_CYCLE_UP {
            0x13
        } else if value == special_action::PROFILE_CYCLE_UP {
            0x14
        } else if value == special_action::RESOLUTION_ALTERNATE {
            0x15
        } else if value == special_action::SECOND_MODE {
            0x17
        } else {
            0
        },
        _ => 0,
    }
}

/// The action that a code stands for.
pub fn raw_to_button_action(code: u8) -> (r: Option<(ActionType, u32)>)
    ensures
        r == action_of_code(code),
{
    match code {
        1 | 2 | 3 | 4 | 5 => Some((ActionType::Button, code as u32)),
        0x11 => Some((ActionType::Special, special_action::RESOLUTION_UP)),
        0x12 => Some((ActionType::Special, special_action::RESOLUTION_DOWN)),
        0x13 => Some((ActionType::Special, special_action::RESOLUTION_CYCLE_UP)),
        0x14 => Some((ActionType::Special, special_action::PROFILE_CYCLE_UP)),
        0x15 => Some((ActionType::Special, special_action::RESOLUTION_ALTERNATE)),
        0x17 => Some((ActionType::Special, special_action::SECOND_MODE)),
        _ => None,
    }
}

/// The code of an action; 0 for one that has none.
pub fn button_action_to_raw(action: ActionType, value: u32) -> (r: u8)
    ensures
        r == code_of_action(action, value),
{
    match action {
        ActionType::Button => if 1 <= value && value <= 5 {
            value as u8
        } else {
            0
        },
        ActionType::Special => if value == special_action::RESOLUTION_UP {
            0x11
        } else if value == special_action::RESOLUTION_DOWN {
            0x12
        } else if value == special_action::RESOLUTION_CYCLE_UP {
            0x13
        } else if value == special_action::PROFILE_CYCLE_UP {
            0x14
        } else if value == special_action::RESOLUTION_ALTERNATE {
            0x15
        } else if value == special_action::SECOND_MODE {
            0x17
        } else {
            0
        },
        _ => 0,
    }
}

/// The action that a button of a report has.
pub open spec fn decoded(entry: ButtonEntry) -> (ActionType, u32) {
    match action_of_code(entry.code) {
        Some(a) => a,
        None => if entry.code == 0 && (entry.modifier > 0 || entry.key > 0) {
            (ActionType::Key, entry.key as u32)
        } else {
            (ActionType::NoAction, 0)
        },
    }
}

/// The action that a button of a report has.
pub fn decode_button(entry: &ButtonEntry) -> (r: (ActionType, u32))
    ensures
        r == decoded(*entry),
{
    if let Some(a) = raw_to_button_action(entry.code) {
        return a;
    }
    if entry.code == 0 && (entry.modifier > 0 || entry.key > 0) {
        return (ActionType::Key, entry.key as u32);
    }
    (ActionType::NoAction, 0)
}

/// The button of a report for an action.
pub open spec fn encoded(action: ActionType, value: u32) -> ButtonEntry {
    match action {
        ActionType::Button | ActionType::Special => ButtonEntry {
            code: code_of_action(action, value),
            modifier: 0,
            key: 0,
        },
        ActionType::Key | ActionType::Macro => ButtonEntry {
            code: 0,
            modifier: 0,
            key: value as u8,
        },
        _ => report::blank_entry(),
    }
}

/// The button of a report for an action.
pub fn encode_button(action: ActionType, value: u32) -> (r: ButtonEntry)
    ensures
        r == encoded(action, value),
{
    match action {
        ActionType::Button | ActionType::Special => ButtonEntry {
            code: button_action_to_raw(action, value),
            modifier: 0,
            key: 0,
        },
        ActionType::Key | ActionType::Macro => ButtonEntry {
            code: 0,
            modifier: 0,
            key: value as u8,
        },
        _ => ButtonEntry { code: 0, modifier: 0, key: 0 },
    }
}

/// Whether the device has an action.
pub open spec fn storable(action: ActionType, value: u32) -> bool {
    match action {
        ActionType::Button | ActionType::Special => code_of_action(action, value) != 0,
        ActionType::Key => 1 <= value <= 255,
        ActionType::NoAction => value == 0,
        _ => false,
    }
}

/// An action that the device has comes back as it was written.
pub proof fn action_round_trip(action: ActionType, value: u32)
    requires
        storable(action, value),
    ensures
        decoded(encoded(action, value)) == (action, value),
{
}

/// A button without modifiers and with a known code is written as it was read.
pub proof fn entry_round_trip(entry: ButtonEntry)
    requires
        entry.modifier == 0,
        action_of_code(entry.code) is Some ==> entry.key == 0,
        action_of_code(entry.code) is Some || entry.code == 0,
    ensures
        encoded(decoded(entry).0, decoded(entry).1) == entry,
{
}

/// The byte for a DPI value: a multiple of 50 between [`DPI_MIN`] and
/// [`DPI_MAX`].
pub fn dpi_to_raw(dpi: u32) -> (r: Option<u8>)
    ensures
        r is Some <==> DPI_MIN <= dpi <= DPI_MAX && dpi % 50 == 0,
        r matches Some(raw) ==> raw * 50 == dpi,
{
    if dpi < DPI_MIN || dpi > DPI_MAX || dpi % 50 != 0 {
        return None;
    }
    Some((dpi / 50) as u8)
}

/// The DPI value that a byte stands for.
pub fn raw_to_dpi(raw: u8) -> (r: u32)
    ensures
        r == raw * 50,
{
    raw as u32 * 50
}

/// The polling rate that a byte stands for, in Hz.
pub open spec fn hz_of_raw(raw: u8) -> int {
    1000int / (raw + 1)
}

/// The polling rate that a byte stands for, in Hz.
pub fn raw_to_hz(raw: u8) -> (r: u32)
    ensures
        r == hz_of_raw(raw),
{
    if raw == 0 {
        1000
    } else {
        1000 / (raw as u32 + 1)
    }
}

/// The byte for a polling rate.
pub open spec fn raw_of_hz(hz: u32) -> int {
    if hz == 0 || 1000int / hz as int <= 1 {
        0
    } else if 1000int / hz as int > 256 {
        255
    } else {
        1000int / hz as int - 1
    }
}

/// The byte for a polling rate.
pub fn hz_to_raw(hz: u32) -> (r: u8)
    ensures
        r == raw_of_hz(hz),
{
    if hz == 0 {
        return 0;
    }
    let q: u32 = 1000 / hz;
    if q <= 1 {
        0
    } else if q > 256 {
        255
    } else {
        (q - 1) as u8
    }
}

/// The polling rates that the device has, in Hz.
pub open spec fn report_rates() -> Seq<u32> {
    seq![125u32, 142, 166, 200, 250, 333, 500, 1000]
}

pub(crate) fn report_rate_list() -> (r: Vec<u32>)
    ensures
        r@ == report_rates(),
{
    let r: Vec<u32> = vec![125, 142, 166, 200, 250, 333, 500, 1000];
    assert(r@ =~= report_rates());
    r
}

/// Each polling rate of the device comes back as it was written.
pub proof fn rate_round_trip(hz: u32)
    requires
        report_rates().contains(hz),
    ensures
        hz_of_raw(raw_of_hz(hz) as u8) == hz,
{
    assert(hz == 125 || hz == 142 || hz == 166 || hz == 200 || hz == 250 || hz == 333 || hz == 500
        || hz == 1000);
    assert(1000int / 125 == 8 && 1000int / 142 == 7 && 1000int / 166 == 6 && 1000int / 200 == 5
        && 1000int / 250 == 4 && 1000int / 333 == 3 && 1000int / 500 == 2 && 1000int / 1000 == 1);
    assert(1000int / 8 == 125 && 1000int / 7 == 142 && 1000int / 6 == 166 && 1000int / 5 == 200
        && 1000int / 4 == 250 && 1000int / 3 == 333 && 1000int / 2 == 500 && 1000int / 1 == 1000);
    if hz == 125 {
        assert(raw_of_hz(hz) == 7);
    } else if hz == 142 {
        assert(raw_of_hz(hz) == 6);
    } else if hz == 166 {
        assert(raw_of_hz(hz) == 5);
    } else if hz == 200 {
        assert(raw_of_hz(hz) == 4);
    } else if hz == 250 {
        assert(raw_of_hz(hz) == 3);
    } else if hz == 333 {
        assert(raw_of_hz(hz) == 2);
    } else if hz == 500 {
        assert(raw_of_hz(hz) == 1);
    } else {
        assert(raw_of_hz(hz) == 0);
    }
}

/// The byte for a DPI slot: the step at or below the value, between the first
/// and the last.
pub open spec fn raw_of_dpi(dpi: u32) -> int {
    if dpi < DPI_MIN {
        DPI_MIN as int / 50
    } else if dpi > DPI_MAX {
        DPI_MAX as int / 50
    } else {
        dpi as int / 50
    }
}

pub(crate) fn nearest_raw(dpi: u32) -> (r: u8)
    ensures
        r == raw_of_dpi(dpi),
{
    match dpi_to_raw(dpi) {
        Some(raw) => raw,
        None => {
            let clamped: u32 = if dpi < DPI_MIN {
                DPI_MIN
            } else if dpi > DPI_MAX {
                DPI_MAX
            } else {
                dpi
            };
            match dpi_to_raw(clamped / 50 * 50) {
                Some(raw) => raw,
                None => 0,
            }
        },
    }
}

/// Every DPI value that can be set, in order.
pub(crate) fn dpi_range_list() -> (r: Vec<u32>)
    ensures
        r@ == device::stepped_range(DPI_MIN, DPI_MAX, 50),
{
    device::stepped_list(DPI_MIN, DPI_MAX, 50)
}

} // verus!
