//! Button bindings as onboard profiles store them.

use crate::bytes;
use crate::engine::device::ActionType;
use crate::engine::special_action as sa;
use crate::hal::hidpp;
use crate::hal::hidpp::{
    BUTTON_SUBTYPE_CONSUMER, BUTTON_SUBTYPE_KEYBOARD, BUTTON_SUBTYPE_MOUSE, BUTTON_TYPE_DISABLED,
    BUTTON_TYPE_HID, BUTTON_TYPE_MACRO, BUTTON_TYPE_SPECIAL,
};
use vstd::prelude::*;

verus! {

/// The special action that a hardware opcode stands for.
pub open spec fn special_of_raw(raw: u8) -> u32 {
    match raw {
        0x01 => sa::WHEEL_LEFT,
        0x02 => sa::WHEEL_RIGHT,
        0x03 => sa::RESOLUTION_UP,
        0x04 => sa::RESOLUTION_DOWN,
        0x05 => sa::RESOLUTION_CYCLE_UP,
        0x06 => sa::RESOLUTION_DEFAULT,
        0x07 => sa::RESOLUTION_ALTERNATE,
        0x08 => sa::PROFILE_UP,
        0x09 => sa::PROFILE_DOWN,
        0x0a => sa::PROFILE_CYCLE_UP,
        0x0b => sa::SECOND_MODE,
        _ => sa::UNKNOWN,
    }
}

/// Whether `raw` is the opcode that stands for `special`; 0 stands for every
/// special action that the hardware does not have.
pub open spec fn is_raw_of_special(special: u32, raw: u8) -> bool {
    if 1 <= raw <= 0x0b {
        special_of_raw(raw) == special
    } else {
        raw == 0 && forall|r: u8| 1 <= r <= 0x0b ==> #[trigger] special_of_raw(r) != special
    }
}

/// Converts a hardware opcode to the special action exposed over DBus.
pub fn hidpp20_raw_to_special(raw: u8) -> (r: u32)
    ensures
        r == special_of_raw(raw),
{
    match raw {
        0x01 => sa::WHEEL_LEFT,
        0x02 => sa::WHEEL_RIGHT,
        0x03 => sa::RESOLUTION_UP,
        0x04 => sa::RESOLUTION_DOWN,
        0x05 => sa::RESOLUTION_CYCLE_UP,
        0x06 => sa::RESOLUTION_DEFAULT,
        0x07 => sa::RESOLUTION_ALTERNATE,
        0x08 => sa::PROFILE_UP,
        0x09 => sa::PROFILE_DOWN,
        0x0a => sa::PROFILE_CYCLE_UP,
        0x0b => sa::SECOND_MODE,
        _ => sa::UNKNOWN,
    }
}

/// The opcode that stands for a special action.
pub open spec fn raw_of_special(special: u32) -> u8 {
    if special == sa::WHEEL_LEFT {
        0x01
    } else if special == sa::WHEEL_RIGHT {
        0x02
    } else if special == sa::RESOLUTION_UP {
        0x03
    } else if special == sa::RESOLUTION_DOWN {
        0x04
    } else if special == sa::RESOLUTION_CYCLE_UP {
        0x05
    } else if special == sa::RESOLUTION_DEFAULT {
        0x06
    } else if special == sa::RESOLUTION_ALTERNATE {
        0x07
    } else if special == sa::PROFILE_UP {
        0x08
    } else if special == sa::PROFILE_DOWN {
        0x09
    } else if special == sa::PROFILE_CYCLE_UP {
        0x0a
    } else if special == sa::SECOND_MODE {
        0x0b
    } else {
        0x00
    }
}

/// Converts a special action to the hardware opcode; 0 if there is none.
pub fn hidpp20_special_to_raw(special: u32) -> (r: u8)
    ensures
        r == raw_of_special(special),
{
    if special == sa::WHEEL_LEFT {
        0x01
    } else if special == sa::WHEEL_RIGHT {
        0x02
    } else if special == sa::RESOLUTION_UP {
        0x03
    } else if special == sa::RESOLUTION_DOWN {
        0x04
    } else if special == sa::RESOLUTION_CYCLE_UP {
        0x05
    } else if special == sa::RESOLUTION_DEFAULT {
        0x06
    } else if special == sa::RESOLUTION_ALTERNATE {
        0x07
    } else if special == sa::PROFILE_UP {
        0x08
    } else if special == sa::PROFILE_DOWN {
        0x09
    } else if special == sa::PROFILE_CYCLE_UP {
        0x0a
    } else if special == sa::SECOND_MODE {
        0x0b
    } else {
        0x00
    }
}

/// Each opcode survives the trip through the special action, and the opcode of
/// a special action is the one that stands for it.
pub proof fn special_opcode_round_trip(raw: u8, special: u32)
    ensures
        1 <= raw <= 0x0b ==> raw_of_special(special_of_raw(raw)) == raw,
        raw_of_special(special) != 0 ==> special_of_raw(raw_of_special(special)) == special,
        is_raw_of_special(special, raw_of_special(special)),
{
}

/// What a button does, in the four bytes of an onboard profile.
#[derive(Debug, Clone, Copy, PartialEq, Eq)]
pub struct Hidpp20ButtonBinding {
    pub button_type: u8,
    pub subtype: u8,
    /// The control or macro that the binding names, the least significant byte
    /// first; for a mouse button, its mask, the most significant byte first.
    pub control_id_or_macro_id: [u8; 2],
}

impl Default for Hidpp20ButtonBinding {
    fn default() -> (r: Self)
        ensures
            r.wire() == seq![0u8, 0, 0, 0],
    {
        let r = Hidpp20ButtonBinding { button_type: 0, subtype: 0, control_id_or_macro_id: [0, 0] };
        assert(r.wire() =~= seq![0u8, 0, 0, 0]);
        r
    }
}

/// The kind of action that four bytes stand for.
pub open spec fn action_of_wire(w: Seq<u8>) -> ActionType {
    if w[0] == BUTTON_TYPE_MACRO {
        ActionType::Macro
    } else if w[0] == BUTTON_TYPE_HID {
        if w[1] == BUTTON_SUBTYPE_MOUSE {
            ActionType::Button
        } else if w[1] == BUTTON_SUBTYPE_KEYBOARD {
            ActionType::Key
        } else if w[1] == BUTTON_SUBTYPE_CONSUMER {
            ActionType::Special
        } else {
            ActionType::Unknown
        }
    } else if w[0] == BUTTON_TYPE_SPECIAL {
        ActionType::Special
    } else if w[0] == BUTTON_TYPE_DISABLED {
        ActionType::NoAction
    } else {
        ActionType::Unknown
    }
}

/// The mapping value that four bytes stand for. The mask of a mouse button has
/// its most significant byte first, every other number its least significant.
pub open spec fn mapping_of_wire(w: Seq<u8>) -> u32 {
    if w[0] == BUTTON_TYPE_HID && w[1] == BUTTON_SUBTYPE_MOUSE {
        hidpp::button_of_mask(bytes::be16(w[2], w[3]))
    } else if w[0] == BUTTON_TYPE_SPECIAL {
        special_of_raw(w[2])
    } else {
        bytes::be16(w[3], w[2]) as u32
    }
}

impl Hidpp20ButtonBinding {
    /// The four bytes of the binding.
    pub open spec fn wire(self) -> Seq<u8> {
        seq![
            self.button_type,
            self.subtype,
            self.control_id_or_macro_id[0],
            self.control_id_or_macro_id[1],
        ]
    }

    pub fn from_bytes(buf: &[u8; 4]) -> (r: Self)
        ensures
            r.wire() == buf@,
    {
        let r = Hidpp20ButtonBinding {
            button_type: buf[0],
            subtype: buf[1],
            control_id_or_macro_id: [buf[2], buf[3]],
        };
        assert(r.wire() =~= buf@);
        r
    }

    pub fn into_bytes(self) -> (r: [u8; 4])
        ensures
            r@ == self.wire(),
    {
        let r: [u8; 4] = [
            self.button_type,
            self.subtype,
            self.control_id_or_macro_id[0],
            self.control_id_or_macro_id[1],
        ];
        assert(r@ =~= self.wire());
        r
    }

    /// The kind of action that the binding performs.
    pub open spec fn action(self) -> ActionType {
        action_of_wire(self.wire())
    }

    pub fn to_action(self) -> (r: ActionType)
        ensures
            r == self.action(),
    {
        if self.button_type == BUTTON_TYPE_MACRO {
            ActionType::Macro
        } else if self.button_type == BUTTON_TYPE_HID {
            if self.subtype == BUTTON_SUBTYPE_MOUSE {
                ActionType::Button
            } else if self.subtype == BUTTON_SUBTYPE_KEYBOARD {
                ActionType::Key
            } else if self.subtype == BUTTON_SUBTYPE_CONSUMER {
                ActionType::Special
            } else {
                ActionType::Unknown
            }
        } else if self.button_type == BUTTON_TYPE_SPECIAL {
            ActionType::Special
        } else if self.button_type == BUTTON_TYPE_DISABLED {
            ActionType::NoAction
        } else {
            ActionType::Unknown
        }
    }

    /// The mapping value that the binding stands for.
    pub open spec fn mapping(self) -> u32 {
        mapping_of_wire(self.wire())
    }

    /// The mapping value that the binding stands for.
    pub fn mapping_value(self) -> (r: u32)
        ensures
            r == self.mapping(),
    {
        let first: u8 = self.control_id_or_macro_id[0];
        let second: u8 = self.control_id_or_macro_id[1];
        if self.button_type == BUTTON_TYPE_HID && self.subtype == BUTTON_SUBTYPE_MOUSE {
            hidpp::button_for_mask(bytes::u16_from(first, second))
        } else if self.button_type == BUTTON_TYPE_SPECIAL {
            hidpp20_raw_to_special(first)
        } else {
            bytes::u16_from(second, first) as u32
        }
    }

    /// The four bytes that stand for an action.
    pub open spec fn wire_of_action(action: ActionType, mapping_value: u32) -> Seq<u8> {
        match action {
            ActionType::Macro => seq![BUTTON_TYPE_MACRO, 0u8] + bytes::le_bytes(
                mapping_value as u16,
            ),
            ActionType::Button => seq![BUTTON_TYPE_HID, BUTTON_SUBTYPE_MOUSE] + bytes::be_bytes(
                hidpp::button_mask(mapping_value),
            ),
            ActionType::Key => seq![BUTTON_TYPE_HID, BUTTON_SUBTYPE_KEYBOARD] + bytes::le_bytes(
                mapping_value as u16,
            ),
            ActionType::Special => seq![
                BUTTON_TYPE_SPECIAL,
                0u8,
                raw_of_special(mapping_value),
                0u8,
            ],
            _ => seq![BUTTON_TYPE_DISABLED, 0u8, 0u8, 0u8],
        }
    }

    /// The binding that performs an action. Of a key or macro number the low
    /// sixteen bits are kept.
    pub fn from_action(action: ActionType, mapping_value: u32) -> (r: Self)
        ensures
            r.wire() == Hidpp20ButtonBinding::wire_of_action(action, mapping_value),
    {
        let id: u16 = mapping_value as u16;
        let r = match action {
            ActionType::Macro => Hidpp20ButtonBinding {
                button_type: BUTTON_TYPE_MACRO,
                subtype: 0,
                control_id_or_macro_id: [bytes::low_byte(id), bytes::high_byte(id)],
            },
            ActionType::Button => {
                let mask: u16 = hidpp::mask_for_button(mapping_value);
                Hidpp20ButtonBinding {
                    button_type: BUTTON_TYPE_HID,
                    subtype: BUTTON_SUBTYPE_MOUSE,
                    control_id_or_macro_id: [bytes::high_byte(mask), bytes::low_byte(mask)],
                }
            },
            ActionType::Key => Hidpp20ButtonBinding {
                button_type: BUTTON_TYPE_HID,
                subtype: BUTTON_SUBTYPE_KEYBOARD,
                control_id_or_macro_id: [bytes::low_byte(id), bytes::high_byte(id)],
            },
            ActionType::Special => Hidpp20ButtonBinding {
                button_type: BUTTON_TYPE_SPECIAL,
                subtype: 0,
                control_id_or_macro_id: [hidpp20_special_to_raw(mapping_value), 0],
            },
            _ => Hidpp20ButtonBinding {
                button_type: BUTTON_TYPE_DISABLED,
                subtype: 0,
                control_id_or_macro_id: [0, 0],
            },
        };
        assert(r.wire() =~= Hidpp20ButtonBinding::wire_of_action(action, mapping_value));
        r
    }
}

/// The kind of action survives its binding; every kind that cannot be bound
/// comes back as no action.
pub proof fn binding_keeps_action(action: ActionType, mapping_value: u32)
    ensures
        action_of_wire(Hidpp20ButtonBinding::wire_of_action(action, mapping_value)) == (if action
            == ActionType::Unknown {
            ActionType::NoAction
        } else {
            action
        }),
{
}

/// Whether a binding has room for a mapping value: one of sixteen buttons, a
/// special action that the hardware has, or a key or macro of sixteen bits.
pub open spec fn bindable(action: ActionType, mapping_value: u32) -> bool {
    match action {
        ActionType::Button => 1 <= mapping_value <= 16,
        ActionType::Special => raw_of_special(mapping_value) != 0,
        ActionType::Key | ActionType::Macro => mapping_value <= 0xFFFF,
        _ => false,
    }
}

/// The mapping value of a button, key, special action or macro survives its
/// binding.
pub proof fn binding_keeps_mapping(action: ActionType, mapping_value: u32)
    requires
        bindable(action, mapping_value),
    ensures
        mapping_of_wire(Hidpp20ButtonBinding::wire_of_action(action, mapping_value))
            == mapping_value,
{
    match action {
        ActionType::Button => {
            bytes::bytes_round_trip(hidpp::button_mask(mapping_value), 0, 0);
            hidpp::button_mask_round_trip(mapping_value);
        },
        ActionType::Special => {
            special_opcode_round_trip(0, mapping_value);
        },
        _ => {
            bytes::bytes_round_trip(mapping_value as u16, 0, 0);
        },
    }
}

} // verus!
