//! Buttons: one report holds the bindings of all of them.

use crate::bytes;
use crate::engine::device;
use crate::engine::device::{ActionType, ButtonInfo, ButtonModel};
use crate::engine::special_action;
use crate::hal::steelseries::report::{
    CommandModel, ProtocolVersion, Report, ReportModel, SETTLE_MS, STEELSERIES_REPORT_LONG_SIZE,
    STEELSERIES_REPORT_SIZE_SHORT, SteelseriesCommand,
};
use vstd::prelude::*;

verus! {

pub const STEELSERIES_ID_BUTTONS: u8 = 0x31;

pub const STEELSERIES_BUTTON_OFF: u8 = 0x00;

pub const STEELSERIES_BUTTON_RES_CYCLE: u8 = 0x30;

pub const STEELSERIES_BUTTON_WHEEL_UP: u8 = 0x31;

pub const STEELSERIES_BUTTON_WHEEL_DOWN: u8 = 0x32;

pub const STEELSERIES_BUTTON_KEY: u8 = 0x10;

pub const STEELSERIES_BUTTON_KBD: u8 = 0x51;

pub const STEELSERIES_BUTTON_CONSUMER: u8 = 0x61;

/// How many modifiers a binding has room for.
pub const STEELSERIES_MAX_MODIFIERS: usize = 3;

/// Whether a macro presses a modifier; modifiers are the usages from 224 on.
pub open spec fn presses_modifier(entries: Seq<(u32, u32)>, bit: int) -> bool {
    entries.contains((0u32, (224 + bit) as u32))
}

/// The key that the first `n` events of a macro press last, modifiers apart;
/// zero if there is none.
pub open spec fn last_key(entries: Seq<(u32, u32)>, n: nat) -> u8
    decreases n,
{
    if n == 0 {
        0
    } else {
        let e = entries[n - 1];
        if e.0 == 0 && !(224 <= e.1 <= 231) {
            (e.1 % 256) as u8
        } else {
            last_key(entries, (n - 1) as nat)
        }
    }
}

/// The key that a binding ends in: the last one of the macro, or the mapped one
/// where there is no macro.
pub open spec fn bound_key(b: ButtonModel) -> u8 {
    if b.macro_entries.len() == 0 {
        (b.mapping_value % 256) as u8
    } else {
        last_key(b.macro_entries, b.macro_entries.len())
    }
}

/// The usages of the first modifiers of a macro among the lowest `n`, in
/// order; no more than a binding has room for.
pub open spec fn bound_modifiers(entries: Seq<(u32, u32)>, n: nat) -> Seq<u8>
    decreases n,
{
    if n == 0 {
        Seq::empty()
    } else {
        let earlier = bound_modifiers(entries, (n - 1) as nat);
        if presses_modifier(entries, n - 1) && earlier.len() < STEELSERIES_MAX_MODIFIERS {
            earlier.push((224 + n - 1) as u8)
        } else {
            earlier
        }
    }
}

/// The code of a special action.
pub open spec fn special_code(value: u32) -> u8 {
    if value == special_action::RESOLUTION_CYCLE_UP {
        STEELSERIES_BUTTON_RES_CYCLE
    } else if value == special_action::WHEEL_UP {
        STEELSERIES_BUTTON_WHEEL_UP
    } else if value == special_action::WHEEL_DOWN {
        STEELSERIES_BUTTON_WHEEL_DOWN
    } else {
        STEELSERIES_BUTTON_OFF
    }
}

/// The bytes of a binding to keys.
pub open spec fn key_record(b: ButtonModel, senseiraw: bool) -> Seq<u8> {
    if bound_key(b) == 0 {
        seq![STEELSERIES_BUTTON_CONSUMER, (b.mapping_value % 256) as u8]
    } else if senseiraw {
        seq![STEELSERIES_BUTTON_KEY, bound_key(b)]
    } else {
        seq![STEELSERIES_BUTTON_KBD] + bound_modifiers(b.macro_entries, 8) + seq![bound_key(b)]
    }
}

/// The bytes of a binding.
pub open spec fn button_record(b: ButtonModel, senseiraw: bool) -> Seq<u8> {
    match b.action_type {
        ActionType::Button => seq![b.mapping_value as u8],
        ActionType::Key | ActionType::Macro => key_record(b, senseiraw),
        ActionType::Special => seq![special_code(b.mapping_value)],
        _ => seq![STEELSERIES_BUTTON_OFF],
    }
}

fn final_key(b: &ButtonInfo) -> (r: u8)
    ensures
        r == bound_key(b@),
{
    if b.macro_entries.len() == 0 {
        return (b.mapping_value % 256) as u8;
    }
    let mut key: u8 = 0;
    let mut i: usize = 0;
    while i < b.macro_entries.len()
        invariant
            i <= b.macro_entries@.len(),
            key == last_key(b.macro_entries@, i as nat),
        decreases b.macro_entries@.len() - i,
    {
        let (kind, k) = b.macro_entries[i];
        if kind == 0 && !(224 <= k && k <= 231) {
            key = (k % 256) as u8;
        }
        i += 1;
    }
    key
}

fn has_modifier(entries: &Vec<(u32, u32)>, bit: u32) -> (r: bool)
    requires
        bit < 8,
    ensures
        r == presses_modifier(entries@, bit as int),
{
    let mut i: usize = 0;
    while i < entries.len()
        invariant
            bit < 8,
            i <= entries@.len(),
            forall|j: int| 0 <= j < i ==> entries@[j] != (0u32, (224 + bit) as u32),
        decreases entries@.len() - i,
    {
        let (kind, k) = entries[i];
        if kind == 0 && k == 224 + bit {
            assert(entries@[i as int] == (0u32, (224 + bit) as u32));
            return true;
        }
        i += 1;
    }
    false
}

proof fn lemma_modifiers_fit(entries: Seq<(u32, u32)>, n: nat)
    ensures
        bound_modifiers(entries, n).len() <= STEELSERIES_MAX_MODIFIERS,
    decreases n,
{
    if n > 0 {
        lemma_modifiers_fit(entries, (n - 1) as nat);
    }
}

/// The bytes of a binding to keys. Modifiers beyond those that it has room for
/// are dropped.
pub fn pack_key_button(button: &ButtonInfo, senseiraw: bool) -> (r: Vec<u8>)
    ensures
        r@ == key_record(button@, senseiraw),
{
    let key: u8 = final_key(button);
    let mut r: Vec<u8> = Vec::new();
    if key == 0 {
        r.push(STEELSERIES_BUTTON_CONSUMER);
        r.push((button.mapping_value % 256) as u8);
        assert(r@ =~= key_record(button@, senseiraw));
        return r;
    }
    if senseiraw {
        r.push(STEELSERIES_BUTTON_KEY);
        r.push(key);
        assert(r@ =~= key_record(button@, senseiraw));
        return r;
    }
    r.push(STEELSERIES_BUTTON_KBD);
    assert(r@ =~= seq![STEELSERIES_BUTTON_KBD] + bound_modifiers(button@.macro_entries, 0));
    let mut bit: u32 = 0;
    while bit < 8
        invariant
            bit <= 8,
            r@ == seq![STEELSERIES_BUTTON_KBD] + bound_modifiers(
                button@.macro_entries,
                bit as nat,
            ),
        decreases 8 - bit,
    {
        if has_modifier(&button.macro_entries, bit) && r.len() - 1 < STEELSERIES_MAX_MODIFIERS {
            r.push(224 + bit as u8);
        }
        bit += 1;
        assert(r@ =~= seq![STEELSERIES_BUTTON_KBD] + bound_modifiers(
            button@.macro_entries,
            bit as nat,
        ));
    }
    r.push(key);
    assert(r@ =~= key_record(button@, senseiraw));
    r
}

/// The bytes of a binding.
pub fn pack_button(button: &ButtonInfo, senseiraw: bool) -> (r: Vec<u8>)
    ensures
        r@ == button_record(button@, senseiraw),
{
    let code: u8 = match button.action_type {
        ActionType::Button => button.mapping_value as u8,
        ActionType::Key | ActionType::Macro => {
            return pack_key_button(button, senseiraw);
        },
        ActionType::Special => {
            let value: u32 = button.mapping_value;
            if value == special_action::RESOLUTION_CYCLE_UP {
                STEELSERIES_BUTTON_RES_CYCLE
            } else if value == special_action::WHEEL_UP {
                STEELSERIES_BUTTON_WHEEL_UP
            } else if value == special_action::WHEEL_DOWN {
                STEELSERIES_BUTTON_WHEEL_DOWN
            } else {
                STEELSERIES_BUTTON_OFF
            }
        },
        _ => STEELSERIES_BUTTON_OFF,
    };
    let r = vec![code];
    assert(r@ =~= button_record(button@, senseiraw));
    r
}

/// How many bytes a button takes.
pub open spec fn record_size(senseiraw: bool) -> int {
    if senseiraw {
        3
    } else {
        5
    }
}

/// How many bytes the report for buttons has.
pub open spec fn table_size(senseiraw: bool) -> int {
    if senseiraw {
        32
    } else {
        262
    }
}

/// Where the bytes of a button stand.
pub open spec fn record_start(index: u32, senseiraw: bool) -> int {
    3 + index * record_size(senseiraw)
}

/// The report for the first `n` buttons. What lies beyond its end is dropped.
pub open spec fn button_table(buttons: Seq<ButtonModel>, senseiraw: bool, n: nat) -> Seq<u8>
    decreases n,
{
    if n == 0 {
        ReportModel::output(STEELSERIES_ID_BUTTONS, table_size(senseiraw) as nat).bytes
    } else {
        bytes::spliced(
            button_table(buttons, senseiraw, (n - 1) as nat),
            record_start(buttons[n - 1].index, senseiraw),
            button_record(buttons[n - 1], senseiraw),
        )
    }
}

/// The command that writes the buttons. Version 3 sends a feature report,
/// without the number.
pub open spec fn button_command(
    version: ProtocolVersion,
    senseiraw: bool,
    buttons: Seq<ButtonModel>,
) -> CommandModel {
    let table = button_table(buttons, senseiraw, buttons.len());
    CommandModel {
        feature: version is V3,
        bytes: if version is V3 {
            table.subrange(1, table.len() as int)
        } else {
            table
        },
        opcode: STEELSERIES_ID_BUTTONS,
        settle_ms: SETTLE_MS,
    }
}

fn put_record(buf: &mut Vec<u8>, at: usize, rec: &Vec<u8>)
    requires
        at < old(buf)@.len(),
    ensures
        final(buf)@ == bytes::spliced(old(buf)@, at as int, rec@),
{
    let room: usize = buf.len() - at;
    let mut i: usize = 0;
    while i < rec.len() && i < room
        invariant
            i <= rec@.len(),
            i <= room,
            at + room == buf.len(),
            buf@.len() == old(buf)@.len(),
            buf@ == bytes::spliced(old(buf)@, at as int, rec@.subrange(0, i as int)),
        decreases rec@.len() - i,
    {
        buf[at + i] = rec[i];
        i += 1;
        assert(buf@ =~= bytes::spliced(old(buf)@, at as int, rec@.subrange(0, i as int)));
    }
    assert(buf@ =~= bytes::spliced(old(buf)@, at as int, rec@));
}

proof fn lemma_table_size(buttons: Seq<ButtonModel>, senseiraw: bool, n: nat)
    ensures
        button_table(buttons, senseiraw, n).len() == table_size(senseiraw),
    decreases n,
{
    if n > 0 {
        lemma_table_size(buttons, senseiraw, (n - 1) as nat);
    }
}

/// The command that writes the buttons.
pub fn write_buttons(version: ProtocolVersion, senseiraw: bool, buttons: &Vec<ButtonInfo>) -> (r:
    SteelseriesCommand)
    ensures
        r@ == button_command(version, senseiraw, device::buttons_view(buttons@)),
{
    let ghost models = device::buttons_view(buttons@);
    let size: u64 = if senseiraw {
        3
    } else {
        5
    };
    let report_size: usize = if senseiraw {
        STEELSERIES_REPORT_SIZE_SHORT
    } else {
        STEELSERIES_REPORT_LONG_SIZE
    };
    let mut buf: Vec<u8> = Report::output(STEELSERIES_ID_BUTTONS, report_size).buf;
    let mut i: usize = 0;
    while i < buttons.len()
        invariant
            i <= buttons@.len(),
            models == device::buttons_view(buttons@),
            size == record_size(senseiraw),
            report_size == table_size(senseiraw),
            buf@.len() == report_size,
            buf@ == button_table(models, senseiraw, i as nat),
        decreases buttons@.len() - i,
    {
        assert(models[i as int] == buttons@[i as int]@);
        let ghost before = buf@;
        let b = &buttons[i];
        assert(b.index * size <= u32::MAX * 5) by (nonlinear_arith)
            requires
                0 <= b.index <= u32::MAX,
                0 <= size <= 5,
        ;
        let at: u64 = 3 + b.index as u64 * size;
        if at < report_size as u64 {
            let rec = pack_button(b, senseiraw);
            put_record(&mut buf, at as usize, &rec);
        } else {
            assert(bytes::spliced(before, at as int, button_record(b@, senseiraw)) =~= before);
        }
        i += 1;
    }
    if version == ProtocolVersion::V3 {
        let tail = bytes::slice(buf.as_slice(), 1, report_size);
        SteelseriesCommand {
            feature: true,
            bytes: tail,
            opcode: STEELSERIES_ID_BUTTONS,
            settle_ms: SETTLE_MS,
        }
    } else {
        SteelseriesCommand {
            feature: false,
            bytes: buf,
            opcode: STEELSERIES_ID_BUTTONS,
            settle_ms: SETTLE_MS,
        }
    }
}

/// The bytes of a binding fit in the bytes of its button.
pub proof fn record_fits(b: ButtonModel, senseiraw: bool)
    ensures
        0 < button_record(b, senseiraw).len() <= record_size(senseiraw),
{
    lemma_modifiers_fit(b.macro_entries, 8);
}

/// Buttons with different indices do not get into each other's way: each one
/// reads back as it was written, as far as the report reaches.
pub proof fn buttons_are_independent(buttons: Seq<ButtonModel>, senseiraw: bool, n: nat, i: int, k: int)
    requires
        n <= buttons.len(),
        0 <= i < n,
        forall|a: int, b: int|
            0 <= a < b < n ==> (#[trigger] buttons[a]).index != (#[trigger] buttons[b]).index,
        0 <= k < button_record(buttons[i], senseiraw).len(),
        record_start(buttons[i].index, senseiraw) + k < table_size(senseiraw),
    ensures
        button_table(buttons, senseiraw, n)[record_start(buttons[i].index, senseiraw) + k]
            == button_record(buttons[i], senseiraw)[k],
    decreases n,
{
    lemma_table_size(buttons, senseiraw, (n - 1) as nat);
    record_fits(buttons[i], senseiraw);
    record_fits(buttons[n - 1], senseiraw);
    if i < n - 1 {
        buttons_are_independent(buttons, senseiraw, (n - 1) as nat, i, k);
        let a = buttons[i].index;
        let b = buttons[n - 1].index;
        assert(a != b);
    }
}

} // verus!
