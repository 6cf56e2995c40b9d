//! Buttons and macros as a device stores them.

use crate::bytes;
use crate::engine::device;
use crate::engine::device::{ActionType, ButtonModel, ProfileInfo, ProfileModel};
use crate::engine::special_action as sa;
use crate::hal::sinowealth::protocol::{
    SINOWEALTH_MACRO_LENGTH_MAX, SINOWEALTH_MACRO_SIZE, SINOWEALTH_NUM_BUTTONS,
};
use vstd::prelude::*;

verus! {

pub const BTN_LEFT: u32 = 0x110;

pub const BTN_RIGHT: u32 = 0x111;

pub const BTN_MIDDLE: u32 = 0x112;

pub const BTN_SIDE: u32 = 0x113;

pub const BTN_EXTRA: u32 = 0x114;

/// The kinds of action that a device has.
#[derive(Debug, Clone, Copy, PartialEq, Eq, Structural)]
pub enum HwButtonType {
    MouseButton,
    Keyboard,
    ModifierKey,
    Special,
    Disabled,
    Macro,
}

impl HwButtonType {
    /// The number of the kind.
    pub open spec fn code(self) -> u8 {
        match self {
            HwButtonType::MouseButton => 0x01,
            HwButtonType::Keyboard => 0x10,
            HwButtonType::ModifierKey => 0x11,
            HwButtonType::Special => 0x12,
            HwButtonType::Disabled => 0x20,
            HwButtonType::Macro => 0x40,
        }
    }

    /// The kind with a number.
    pub fn from_byte(b: u8) -> (r: Option<Self>)
        ensures
            r is Some <==> (b == 0x01 || b == 0x10 || b == 0x11 || b == 0x12 || b == 0x20 || b
                == 0x40),
            r matches Some(t) ==> t.code() == b,
    {
        match b {
            0x01 => Some(HwButtonType::MouseButton),
            0x10 => Some(HwButtonType::Keyboard),
            0x11 => Some(HwButtonType::ModifierKey),
            0x12 => Some(HwButtonType::Special),
            0x20 => Some(HwButtonType::Disabled),
            0x40 => Some(HwButtonType::Macro),
            _ => None,
        }
    }
}

/// The special action that a code stands for.
pub open spec fn special_of_hw(code: u8) -> u32 {
    match code {
        0x01 => sa::WHEEL_UP,
        0x02 => sa::WHEEL_DOWN,
        0x03 => sa::RESOLUTION_CYCLE_UP,
        0x04 => sa::RESOLUTION_UP,
        0x05 => sa::RESOLUTION_DOWN,
        0x06 => sa::PROFILE_CYCLE_UP,
        0x07 => sa::PROFILE_UP,
        0x08 => sa::PROFILE_DOWN,
        0x09 => sa::DOUBLECLICK,
        0x0a => sa::WHEEL_LEFT,
        0x0b => sa::WHEEL_RIGHT,
        0x0c => sa::RESOLUTION_ALTERNATE,
        0x0d => sa::RESOLUTION_DEFAULT,
        0x0e => sa::BATTERY_LEVEL,
        0x0f => sa::SECOND_MODE,
        0x10 => sa::RESOLUTION_CYCLE_DOWN,
        _ => sa::UNKNOWN,
    }
}

/// The special action that a code stands for.
pub fn hw_special_to_ratbag(code: u8) -> (r: u32)
    ensures
        r == special_of_hw(code),
{
    match code {
        0x01 => sa::WHEEL_UP,
        0x02 => sa::WHEEL_DOWN,
        0x03 => sa::RESOLUTION_CYCLE_UP,
        0x04 => sa::RESOLUTION_UP,
        0x05 => sa::RESOLUTION_DOWN,
        0x06 => sa::PROFILE_CYCLE_UP,
        0x07 => sa::PROFILE_UP,
        0x08 => sa::PROFILE_DOWN,
        0x09 => sa::DOUBLECLICK,
        0x0a => sa::WHEEL_LEFT,
        0x0b => sa::WHEEL_RIGHT,
        0x0c => sa::RESOLUTION_ALTERNATE,
        0x0d => sa::RESOLUTION_DEFAULT,
        0x0e => sa::BATTERY_LEVEL,
        0x0f => sa::SECOND_MODE,
        0x10 => sa::RESOLUTION_CYCLE_DOWN,
        _ => sa::UNKNOWN,
    }
}

/// The code of a special action; 0 for one that has none.
pub open spec fn hw_of_special(action: u32) -> u8 {
    if action == sa::WHEEL_UP {
        0x01
    } else if action == sa::WHEEL_DOWN {
        0x02
    } else if action == sa::RESOLUTION_CYCLE_UP {
        0x03
    } else if action == sa::RESOLUTION_UP {
        0x04
    } else if action == sa::RESOLUTION_DOWN {
        0x05
    } else if action == sa::PROFILE_CYCLE_UP {
        0x06
    } else if action == sa::PROFILE_UP {
        0x07
    } else if action == sa::PROFILE_DOWN {
        0x08
    } else if action == sa::DOUBLECLICK {
        0x09
    } else if action == sa::WHEEL_LEFT {
        0x0a
    } else if action == sa::WHEEL_RIGHT {
        0x0b
    } else if action == sa::RESOLUTION_ALTERNATE {
        0x0c
    } else if action == sa::RESOLUTION_DEFAULT {
        0x0d
    } else if action == sa::BATTERY_LEVEL {
        0x0e
    } else if action == sa::SECOND_MODE {
        0x0f
    } else if action == sa::RESOLUTION_CYCLE_DOWN {
        0x10
    } else {
        0x00
    }
}

/// The code of a special action; 0 for one that has none.
pub fn ratbag_special_to_hw(action: u32) -> (r: u8)
    ensures
        r == hw_of_special(action),
{
    if action == sa::WHEEL_UP {
        0x01
    } else if action == sa::WHEEL_DOWN {
        0x02
    } else if action == sa::RESOLUTION_CYCLE_UP {
        0x03
    } else if action == sa::RESOLUTION_UP {
        0x04
    } else if action == sa::RESOLUTION_DOWN {
        0x05
    } else if action == sa::PROFILE_CYCLE_UP {
        0x06
    } else if action == sa::PROFILE_UP {
        0x07
    } else if action == sa::PROFILE_DOWN {
        0x08
    } else if action == sa::DOUBLECLICK {
        0x09
    } else if action == sa::WHEEL_LEFT {
        0x0a
    } else if action == sa::WHEEL_RIGHT {
        0x0b
    } else if action == sa::RESOLUTION_ALTERNATE {
        0x0c
    } else if action == sa::RESOLUTION_DEFAULT {
        0x0d
    } else if action == sa::BATTERY_LEVEL {
        0x0e
    } else if action == sa::SECOND_MODE {
        0x0f
    } else if action == sa::RESOLUTION_CYCLE_DOWN {
        0x10
    } else {
        0x00
    }
}

/// A code that stands for an action is the code of that action, and an action
/// that has a code is the one that the code stands for.
pub proof fn special_round_trip(code: u8, action: u32)
    ensures
        special_of_hw(code) != sa::UNKNOWN ==> hw_of_special(special_of_hw(code)) == code,
        hw_of_special(action) != 0 ==> special_of_hw(hw_of_special(action)) == action,
{
}

/// The button that a bit stands for; the left one for anything else.
pub open spec fn button_of_bit(bit: u8) -> u32 {
    match bit {
        0x02 => BTN_RIGHT,
        0x04 => BTN_MIDDLE,
        0x08 => BTN_SIDE,
        0x10 => BTN_EXTRA,
        _ => BTN_LEFT,
    }
}

/// The bit of a button; that of the left one for anything else.
pub open spec fn bit_of_button(button: u32) -> u8 {
    if button == BTN_RIGHT {
        0x02
    } else if button == BTN_MIDDLE {
        0x04
    } else if button == BTN_SIDE {
        0x08
    } else if button == BTN_EXTRA {
        0x10
    } else {
        0x01
    }
}

/// The action that four bytes stand for.
pub open spec fn decoded(w: Seq<u8>) -> (ActionType, u32) {
    match w[0] {
        0x01 => (ActionType::Button, button_of_bit(w[1])),
        0x12 => (ActionType::Special, special_of_hw(w[1])),
        0x10 => (ActionType::Key, w[1] as u32),
        0x11 => (ActionType::Key, (w[1] * 0x10000 + w[2]) as u32),
        0x40 => (ActionType::Macro, w[1] as u32),
        _ => (ActionType::NoAction, 0),
    }
}

/// The action that four bytes stand for.
pub fn decode_button(raw: &[u8; 4]) -> (r: (ActionType, u32))
    ensures
        r == decoded(raw@),
{
    match HwButtonType::from_byte(raw[0]) {
        Some(HwButtonType::MouseButton) => {
            let button: u32 = match raw[1] {
                0x02 => BTN_RIGHT,
                0x04 => BTN_MIDDLE,
                0x08 => BTN_SIDE,
                0x10 => BTN_EXTRA,
                _ => BTN_LEFT,
            };
            (ActionType::Button, button)
        },
        Some(HwButtonType::Special) => (ActionType::Special, hw_special_to_ratbag(raw[1])),
        Some(HwButtonType::Keyboard) => (ActionType::Key, raw[1] as u32),
        Some(HwButtonType::ModifierKey) => (
            ActionType::Key,
            raw[1] as u32 * 0x10000 + raw[2] as u32,
        ),
        Some(HwButtonType::Macro) => (ActionType::Macro, raw[1] as u32),
        Some(HwButtonType::Disabled) => (ActionType::NoAction, 0),
        None => (ActionType::NoAction, 0),
    }
}

/// The four bytes of an action. A key beyond 16 bits has its modifiers there.
pub open spec fn encoded(action: ActionType, value: u32) -> Seq<u8> {
    match action {
        ActionType::Button => seq![0x01u8, bit_of_button(value), 0u8, 0u8],
        ActionType::Special => seq![0x12u8, hw_of_special(value), 0u8, 0u8],
        ActionType::Key => if value > 0xFFFF {
            seq![0x11u8, (value / 0x10000 % 256) as u8, (value % 256) as u8, 0u8]
        } else {
            seq![0x10u8, (value % 256) as u8, 0u8, 0u8]
        },
        ActionType::Macro => seq![0x40u8, (value % 256) as u8, 0u8, 0u8],
        _ => seq![0x20u8, 0u8, 0u8, 0u8],
    }
}

/// The four bytes of an action.
pub fn encode_button(action_type: ActionType, value: u32) -> (r: [u8; 4])
    ensures
        r@ == encoded(action_type, value),
{
    let r: [u8; 4] = match action_type {
        ActionType::Button => {
            let bit: u8 = if value == BTN_RIGHT {
                0x02
            } else if value == BTN_MIDDLE {
                0x04
            } else if value == BTN_SIDE {
                0x08
            } else if value == BTN_EXTRA {
                0x10
            } else {
                0x01
            };
            [0x01, bit, 0, 0]
        },
        ActionType::Special => [0x12, ratbag_special_to_hw(value), 0, 0],
        ActionType::Key => if value > 0xFFFF {
            [0x11, (value / 0x10000 % 256) as u8, (value % 256) as u8, 0]
        } else {
            [0x10, (value % 256) as u8, 0, 0]
        },
        ActionType::Macro => [0x40, (value % 256) as u8, 0, 0],
        _ => [0x20, 0, 0, 0],
    };
    assert(r@ =~= encoded(action_type, value));
    r
}

/// Whether the device has an action.
pub open spec fn storable(action: ActionType, value: u32) -> bool {
    match action {
        ActionType::Button => BTN_LEFT <= value <= BTN_EXTRA,
        ActionType::Special => hw_of_special(value) != 0,
        ActionType::Key => value < 256 || (value > 0xFFFF && value < 0x1000000 && value % 0x10000
            < 256),
        ActionType::Macro => value < 256,
        ActionType::NoAction => value == 0,
        ActionType::Unknown => false,
    }
}

/// An action that the device has comes back as it was written.
pub proof fn action_round_trip(action: ActionType, value: u32)
    requires
        storable(action, value),
    ensures
        decoded(encoded(action, value)) == (action, value),
{
    special_round_trip(0, value);
}

/// The place of the button at `i` in a button report.
pub open spec fn entry_at(i: int) -> int {
    4 + 4 * i
}

/// How many buttons a report holds for a device with `n` of them.
pub open spec fn buttons_held(buf: Seq<u8>, n: nat) -> int {
    let room = if buf.len() < 4 {
        0
    } else {
        (buf.len() - 4) / 4
    };
    let most: int = if n < 20 {
        n as int
    } else {
        20
    };
    if room < most {
        room
    } else {
        most
    }
}

/// A profile with its buttons as a report describes them.
pub open spec fn with_buttons(p: ProfileModel, buf: Seq<u8>, n: nat) -> ProfileModel {
    ProfileModel {
        buttons: Seq::new(
            p.buttons.len(),
            |i: int|
                if i < buttons_held(buf, n) {
                    let (action_type, mapping_value) = decoded(
                        buf.subrange(entry_at(i), entry_at(i) + 4),
                    );
                    ButtonModel { action_type, mapping_value, ..p.buttons[i] }
                } else {
                    p.buttons[i]
                },
        ),
        ..p
    }
}

fn count_held(buf: &Vec<u8>, n: usize) -> (r: usize)
    ensures
        r == buttons_held(buf@, n as nat),
        4 + 4 * r <= buf@.len() || r == 0,
        r <= 20,
{
    let room: usize = if buf.len() < 4 {
        0
    } else {
        (buf.len() - 4) / 4
    };
    let most: usize = if n < SINOWEALTH_NUM_BUTTONS {
        n
    } else {
        SINOWEALTH_NUM_BUTTONS
    };
    if room < most {
        room
    } else {
        most
    }
}

/// Sets the buttons of a profile from a report.
pub fn parse_buttons_into_profile(buf: &Vec<u8>, n: usize, p: &mut ProfileInfo)
    ensures
        final(p)@ == with_buttons(old(p)@, buf@, n as nat),
{
    let ghost target = with_buttons(old(p)@, buf@, n as nat).buttons;
    let held: usize = count_held(buf, n);
    let mut i: usize = 0;
    while i < p.buttons.len() && i < held
        invariant
            i <= p.buttons@.len(),
            i <= held <= 20,
            held == buttons_held(buf@, n as nat),
            4 + 4 * held <= buf@.len() || held == 0,
            target == with_buttons(old(p)@, buf@, n as nat).buttons,
            p@ == (ProfileModel { buttons: p@.buttons, ..old(p)@ }),
            p@.buttons.len() == old(p)@.buttons.len(),
            forall|k: int| 0 <= k < i ==> #[trigger] p@.buttons[k] == target[k],
            forall|k: int|
                i <= k < p@.buttons.len() ==> #[trigger] p@.buttons[k] == old(p)@.buttons[k],
        decreases p.buttons@.len() - i,
    {
        let at: usize = 4 + 4 * i;
        let raw: [u8; 4] = [buf[at], buf[at + 1], buf[at + 2], buf[at + 3]];
        assert(raw@ =~= buf@.subrange(entry_at(i as int), entry_at(i as int) + 4));
        let (action_type, mapping_value) = decode_button(&raw);
        proof {
            device::lemma_buttons_view_update(p.buttons@, i as int);
        }
        assert(p@.buttons[i as int] == p.buttons@[i as int]@);
        p.buttons[i].action_type = action_type;
        proof {
            device::lemma_buttons_view_update(p.buttons@, i as int);
        }
        assert(p@.buttons[i as int] == p.buttons@[i as int]@);
        p.buttons[i].mapping_value = mapping_value;
        i += 1;
    }
    assert(p@.buttons =~= target);
}

/// A button report with the first `m` buttons written into it.
pub open spec fn button_report(buf: Seq<u8>, buttons: Seq<ButtonModel>, m: nat) -> Seq<u8>
    decreases m,
{
    if m == 0 {
        buf
    } else {
        bytes::spliced(
            button_report(buf, buttons, (m - 1) as nat),
            entry_at(m - 1),
            encoded(buttons[m - 1].action_type, buttons[m - 1].mapping_value),
        )
    }
}

/// How many buttons are written into a report.
pub open spec fn buttons_written(buf: Seq<u8>, buttons: Seq<ButtonModel>, n: nat) -> nat {
    if buttons.len() < buttons_held(buf, n) {
        buttons.len()
    } else {
        buttons_held(buf, n) as nat
    }
}

/// Writes the buttons of a profile into a report.
pub fn encode_buttons_from_profile(buf: &mut Vec<u8>, n: usize, p: &ProfileInfo)
    ensures
        final(buf)@ == button_report(
            old(buf)@,
            p@.buttons,
            buttons_written(old(buf)@, p@.buttons, n as nat),
        ),
        final(buf)@.len() == old(buf)@.len(),
{
    let held: usize = count_held(buf, n);
    assert(p@.buttons.len() == p.buttons@.len());
    let mut i: usize = 0;
    while i < p.buttons.len() && i < held
        invariant
            p@.buttons.len() == p.buttons@.len(),
            i <= p.buttons@.len(),
            i <= held <= 20,
            held == buttons_held(old(buf)@, n as nat),
            buf@.len() == old(buf)@.len(),
            4 + 4 * held <= buf@.len() || held == 0,
            buf@ == button_report(old(buf)@, p@.buttons, i as nat),
        decreases p.buttons@.len() - i,
    {
        assert(p@.buttons[i as int] == p.buttons@[i as int]@);
        let wire = encode_button(p.buttons[i].action_type, p.buttons[i].mapping_value);
        bytes::put(buf, 4 + 4 * i, wire.as_slice());
        i += 1;
    }
}

proof fn lemma_button_report(buf: Seq<u8>, buttons: Seq<ButtonModel>, m: nat, i: int)
    requires
        0 <= i < m,
        4 + 4 * m <= buf.len(),
    ensures
        button_report(buf, buttons, m).len() == buf.len(),
        button_report(buf, buttons, m).subrange(entry_at(i), entry_at(i) + 4) == encoded(
            buttons[i].action_type,
            buttons[i].mapping_value,
        ),
    decreases m,
{
    let before = button_report(buf, buttons, (m - 1) as nat);
    let now = button_report(buf, buttons, m);
    lemma_button_report_size(buf, buttons, (m - 1) as nat);
    if i < m - 1 {
        lemma_button_report(buf, buttons, (m - 1) as nat, i);
        assert(now.subrange(entry_at(i), entry_at(i) + 4) =~= before.subrange(
            entry_at(i),
            entry_at(i) + 4,
        ));
    } else {
        assert(now.subrange(entry_at(i), entry_at(i) + 4) =~= encoded(
            buttons[i].action_type,
            buttons[i].mapping_value,
        ));
    }
}

proof fn lemma_button_report_size(buf: Seq<u8>, buttons: Seq<ButtonModel>, m: nat)
    ensures
        button_report(buf, buttons, m).len() == buf.len(),
    decreases m,
{
    if m > 0 {
        lemma_button_report_size(buf, buttons, (m - 1) as nat);
    }
}

/// The buttons that a report has room for are read back as they were written,
/// where the device has their actions.
pub proof fn buttons_read_back(p: ProfileModel, buf: Seq<u8>, n: nat, i: int)
    requires
        0 <= i < buttons_written(buf, p.buttons, n),
        storable(p.buttons[i].action_type, p.buttons[i].mapping_value),
    ensures
        ({
            let written = button_report(buf, p.buttons, buttons_written(buf, p.buttons, n));
            let back = with_buttons(p, written, n).buttons[i];
            back == p.buttons[i]
        }),
{
    let m = buttons_written(buf, p.buttons, n);
    lemma_button_report(buf, p.buttons, m, i);
    action_round_trip(p.buttons[i].action_type, p.buttons[i].mapping_value);
}

/// How many events there are before the first that is zero, from `i` on.
pub open spec fn macro_length(buf: Seq<u8>, i: int) -> int
    decreases 168 - i,
{
    if i < 0 || i >= 168 || 3 + 3 * i + 3 > buf.len() || buf[3 + 3 * i] == 0 {
        i
    } else {
        macro_length(buf, i + 1)
    }
}

/// The events of a macro report.
pub open spec fn macro_events(buf: Seq<u8>) -> Seq<(u32, u32)> {
    Seq::new(
        macro_length(buf, 0) as nat,
        |i: int| (buf[3 + 3 * i] as u32, buf[3 + 3 * i + 1] as u32),
    )
}

/// Reads a macro report.
pub fn parse_macro(buf: &[u8]) -> (r: Vec<(u32, u32)>)
    ensures
        r@ == macro_events(buf@),
{
    let mut r: Vec<(u32, u32)> = Vec::new();
    let mut i: usize = 0;
    while i < SINOWEALTH_MACRO_LENGTH_MAX && 3 + 3 * i + 3 <= buf.len() && buf[3 + 3 * i] != 0
        invariant
            i <= 168,
            r@.len() == i,
            macro_length(buf@, 0) == macro_length(buf@, i as int),
            forall|k: int|
                0 <= k < i ==> #[trigger] r@[k] == (
                    buf@[3 + 3 * k] as u32,
                    buf@[3 + 3 * k + 1] as u32,
                ),
        decreases 168 - i,
    {
        r.push((buf[3 + 3 * i] as u32, buf[3 + 3 * i + 1] as u32));
        i += 1;
    }
    assert(macro_length(buf@, i as int) == i);
    assert(r@ =~= macro_events(buf@));
    r
}

/// The byte at place `k` of the macro report for a button.
pub open spec fn macro_byte(report: u8, profile: u8, button: u8, events: Seq<(u32, u32)>, k: int) -> u8 {
    let i = (k - 3) / 3;
    if k == 0 {
        report
    } else if k == 1 {
        profile
    } else if k == 2 {
        button
    } else if i < 168 && i < events.len() && (k - 3) % 3 == 0 {
        (events[i].0 % 256) as u8
    } else if i < 168 && i < events.len() && (k - 3) % 3 == 1 {
        (events[i].1 % 256) as u8
    } else {
        0
    }
}

/// The macro report for a button.
pub open spec fn macro_report(report: u8, profile: u8, button: u8, events: Seq<(u32, u32)>) -> Seq<
    u8,
> {
    Seq::new(515, |k: int| macro_byte(report, profile, button, events, k))
}

/// The macro report for a button; events beyond the last that fits are dropped.
pub fn build_macro(report: u8, profile: u8, button: u8, events: &Vec<(u32, u32)>) -> (r: Vec<u8>)
    ensures
        r@ == macro_report(report, profile, button, events@),
{
    let mut buf: Vec<u8> = bytes::fill(SINOWEALTH_MACRO_SIZE, 0);
    buf[0] = report;
    buf[1] = profile;
    buf[2] = button;
    let mut i: usize = 0;
    while i < events.len() && i < SINOWEALTH_MACRO_LENGTH_MAX
        invariant
            i <= 168,
            i <= events@.len(),
            buf@.len() == 515,
            forall|k: int|
                0 <= k < 3 + 3 * i ==> #[trigger] buf@[k] == macro_byte(
                    report,
                    profile,
                    button,
                    events@,
                    k,
                ),
            forall|k: int| 3 + 3 * i <= k < 515 ==> #[trigger] buf@[k] == 0,
        decreases events@.len() - i,
    {
        let at: usize = 3 + 3 * i;
        let event = events[i];
        buf[at] = (event.0 % 256) as u8;
        buf[at + 1] = (event.1 % 256) as u8;
        i += 1;
    }
    assert(buf@ =~= macro_report(report, profile, button, events@));
    buf
}

proof fn lemma_macro_length(buf: Seq<u8>, n: int, i: int)
    requires
        0 <= i <= n <= 168,
        buf.len() == 515,
        forall|k: int| 0 <= k < n ==> #[trigger] buf[3 + 3 * k] != 0,
        n < 168 ==> buf[3 + 3 * n] == 0,
    ensures
        macro_length(buf, i) == n,
    decreases n - i,
{
    if i < n {
        assert(buf[3 + 3 * i] != 0);
        lemma_macro_length(buf, n, i + 1);
    }
}

/// A macro is read back as it was written: up to 168 events of bytes, none of
/// which has the type zero.
pub proof fn macro_reads_back(report: u8, profile: u8, button: u8, events: Seq<(u32, u32)>)
    requires
        events.len() <= 168,
        forall|i: int|
            0 <= i < events.len() ==> 0 < (#[trigger] events[i]).0 < 256 && events[i].1 < 256,
    ensures
        macro_events(macro_report(report, profile, button, events)) == events,
{
    let buf = macro_report(report, profile, button, events);
    let n = events.len() as int;
    assert forall|k: int| 0 <= k < n implies #[trigger] buf[3 + 3 * k] != 0 by {
        assert((3 + 3 * k - 3) / 3 == k && (3 + 3 * k - 3) % 3 == 0);
        assert(0 < events[k].0 < 256);
    }
    if n < 168 {
        assert((3 + 3 * n - 3) / 3 == n);
    }
    lemma_macro_length(buf, n, 0);
    assert forall|k: int| 0 <= k < n implies macro_events(buf)[k] == events[k] by {
        assert((3 + 3 * k - 3) / 3 == k && (3 + 3 * k - 3) % 3 == 0);
        assert((3 + 3 * k + 1 - 3) / 3 == k && (3 + 3 * k + 1 - 3) % 3 == 1);
        assert(0 < events[k].0 < 256 && events[k].1 < 256);
    }
    assert(macro_events(buf) =~= events);
}

} // verus!
