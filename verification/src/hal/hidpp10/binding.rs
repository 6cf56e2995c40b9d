//! Button bindings as onboard profiles store them.

use crate::bytes;
use crate::hal::hidpp;
use vstd::prelude::*;

verus! {

pub const PROFILE_BUTTON_TYPE_BUTTON: u8 = 0x81;

pub const PROFILE_BUTTON_TYPE_KEYS: u8 = 0x82;

pub const PROFILE_BUTTON_TYPE_SPECIAL: u8 = 0x83;

pub const PROFILE_BUTTON_TYPE_CONSUMER_CONTROL: u8 = 0x84;

pub const PROFILE_BUTTON_TYPE_DISABLED: u8 = 0x8F;

/// What a button does.
#[derive(Debug, Clone, Copy, PartialEq, Eq, Structural)]
pub enum Hidpp10ButtonBinding {
    Button { button: u16 },
    Keys { modifier_flags: u8, key: u8 },
    Special { code: u16 },
    ConsumerControl { usage: u16 },
    Disabled,
    Macro { page: u8, offset: u8 },
    Unknown { type_byte: u8 },
}

impl Hidpp10ButtonBinding {
    /// The binding that three bytes stand for.
    pub open spec fn of_wire(w: Seq<u8>) -> Hidpp10ButtonBinding {
        if w[0] == PROFILE_BUTTON_TYPE_BUTTON {
            Hidpp10ButtonBinding::Button {
                button: hidpp::button_of_mask(bytes::be16(w[2], w[1])) as u16,
            }
        } else if w[0] == PROFILE_BUTTON_TYPE_KEYS {
            Hidpp10ButtonBinding::Keys { modifier_flags: w[1], key: w[2] }
        } else if w[0] == PROFILE_BUTTON_TYPE_SPECIAL {
            Hidpp10ButtonBinding::Special { code: bytes::be16(w[2], w[1]) }
        } else if w[0] == PROFILE_BUTTON_TYPE_CONSUMER_CONTROL {
            Hidpp10ButtonBinding::ConsumerControl { usage: bytes::be16(w[1], w[2]) }
        } else if w[0] == PROFILE_BUTTON_TYPE_DISABLED {
            Hidpp10ButtonBinding::Disabled
        } else if w[0] >= 0x80 {
            Hidpp10ButtonBinding::Unknown { type_byte: w[0] }
        } else {
            Hidpp10ButtonBinding::Macro { page: w[0], offset: w[1] }
        }
    }

    /// The three bytes of the binding.
    pub open spec fn wire(self) -> Seq<u8> {
        match self {
            Hidpp10ButtonBinding::Button { button } => {
                let mask = hidpp::button_mask(button as u32);
                seq![PROFILE_BUTTON_TYPE_BUTTON, bytes::lo8(mask), bytes::hi8(mask)]
            },
            Hidpp10ButtonBinding::Keys { modifier_flags, key } => seq![
                PROFILE_BUTTON_TYPE_KEYS,
                modifier_flags,
                key,
            ],
            Hidpp10ButtonBinding::Special { code } => seq![
                PROFILE_BUTTON_TYPE_SPECIAL,
                bytes::lo8(code),
                bytes::hi8(code),
            ],
            Hidpp10ButtonBinding::ConsumerControl { usage } => seq![
                PROFILE_BUTTON_TYPE_CONSUMER_CONTROL,
                bytes::hi8(usage),
                bytes::lo8(usage),
            ],
            Hidpp10ButtonBinding::Disabled => seq![PROFILE_BUTTON_TYPE_DISABLED, 0u8, 0u8],
            Hidpp10ButtonBinding::Macro { page, offset } => seq![page, offset, 0u8],
            Hidpp10ButtonBinding::Unknown { type_byte } => seq![type_byte, 0u8, 0u8],
        }
    }

    /// Whether there is a bit for the button.
    pub open spec fn writable(self) -> bool {
        self matches Hidpp10ButtonBinding::Button { button } ==> button <= 16
    }

    /// Whether the binding is one that is read.
    pub open spec fn readable(self) -> bool {
        match self {
            Hidpp10ButtonBinding::Button { button } => button <= 16,
            Hidpp10ButtonBinding::Macro { page, .. } => page < 0x80,
            Hidpp10ButtonBinding::Unknown { type_byte } => {
                &&& type_byte >= 0x80
                &&& !(0x81 <= type_byte <= 0x84)
                &&& type_byte != 0x8F
            },
            _ => true,
        }
    }
}

/// The binding that three bytes stand for.
pub fn parse_button_binding(data: &[u8; 3]) -> (r: Hidpp10ButtonBinding)
    ensures
        r == Hidpp10ButtonBinding::of_wire(data@),
        r.writable(),
{
    let kind: u8 = data[0];
    if kind == PROFILE_BUTTON_TYPE_BUTTON {
        let mask: u16 = bytes::u16_from(data[2], data[1]);
        Hidpp10ButtonBinding::Button { button: hidpp::button_for_mask(mask) as u16 }
    } else if kind == PROFILE_BUTTON_TYPE_KEYS {
        Hidpp10ButtonBinding::Keys { modifier_flags: data[1], key: data[2] }
    } else if kind == PROFILE_BUTTON_TYPE_SPECIAL {
        Hidpp10ButtonBinding::Special { code: bytes::u16_from(data[2], data[1]) }
    } else if kind == PROFILE_BUTTON_TYPE_CONSUMER_CONTROL {
        Hidpp10ButtonBinding::ConsumerControl { usage: bytes::u16_from(data[1], data[2]) }
    } else if kind == PROFILE_BUTTON_TYPE_DISABLED {
        Hidpp10ButtonBinding::Disabled
    } else if kind >= 0x80 {
        Hidpp10ButtonBinding::Unknown { type_byte: kind }
    } else {
        Hidpp10ButtonBinding::Macro { page: data[0], offset: data[1] }
    }
}

/// The three bytes of a binding.
pub fn serialize_button_binding(binding: &Hidpp10ButtonBinding) -> (r: [u8; 3])
    requires
        binding.writable(),
    ensures
        r@ == binding.wire(),
{
    let r: [u8; 3] = match *binding {
        Hidpp10ButtonBinding::Button { button } => {
            let mask: u16 = hidpp::mask_for_button(button as u32);
            [PROFILE_BUTTON_TYPE_BUTTON, bytes::low_byte(mask), bytes::high_byte(mask)]
        },
        Hidpp10ButtonBinding::Keys { modifier_flags, key } => [
            PROFILE_BUTTON_TYPE_KEYS,
            modifier_flags,
            key,
        ],
        Hidpp10ButtonBinding::Special { code } => [
            PROFILE_BUTTON_TYPE_SPECIAL,
            bytes::low_byte(code),
            bytes::high_byte(code),
        ],
        Hidpp10ButtonBinding::ConsumerControl { usage } => [
            PROFILE_BUTTON_TYPE_CONSUMER_CONTROL,
            bytes::high_byte(usage),
            bytes::low_byte(usage),
        ],
        Hidpp10ButtonBinding::Disabled => [PROFILE_BUTTON_TYPE_DISABLED, 0, 0],
        Hidpp10ButtonBinding::Macro { page, offset } => [page, offset, 0],
        Hidpp10ButtonBinding::Unknown { type_byte } => [type_byte, 0, 0],
    };
    assert(r@ =~= binding.wire());
    r
}

/// A binding that can be read comes back as it was written.
pub proof fn binding_round_trip(binding: Hidpp10ButtonBinding)
    requires
        binding.readable(),
    ensures
        Hidpp10ButtonBinding::of_wire(binding.wire()) == binding,
{
    match binding {
        Hidpp10ButtonBinding::Button { button } => {
            let mask = hidpp::button_mask(button as u32);
            bytes::bytes_round_trip(mask, 0, 0);
            if button > 0 {
                hidpp::button_mask_round_trip(button as u32);
            }
        },
        Hidpp10ButtonBinding::Special { code } => {
            bytes::bytes_round_trip(code, 0, 0);
        },
        Hidpp10ButtonBinding::ConsumerControl { usage } => {
            bytes::bytes_round_trip(usage, 0, 0);
        },
        _ => {},
    }
}

/// Every binding that is read can be read again once it was written.
pub proof fn parsed_binding_is_readable(w: Seq<u8>)
    requires
        w.len() == 3,
    ensures
        Hidpp10ButtonBinding::of_wire(w).readable(),
{
    let mask = bytes::be16(w[2], w[1]);
    bytes::lowest_bit_is_small(mask);
}

} // verus!
