//! Special-action values exposed over the DBus `Mapping` property while a
//! button performs `ActionType::Special`.
//!
//! Drivers translate between the codes of their hardware and these values.

use vstd::prelude::*;

verus! {

/// The first special-action value, `1 << 30`.
pub const BASE: u32 = 0x4000_0000;

pub const UNKNOWN: u32 = 0x4000_0000;

pub const DOUBLECLICK: u32 = 0x4000_0001;

pub const WHEEL_LEFT: u32 = 0x4000_0002;

pub const WHEEL_RIGHT: u32 = 0x4000_0003;

pub const WHEEL_UP: u32 = 0x4000_0004;

pub const WHEEL_DOWN: u32 = 0x4000_0005;

pub const RATCHET_MODE_SWITCH: u32 = 0x4000_0006;

pub const RESOLUTION_CYCLE_UP: u32 = 0x4000_0007;

pub const RESOLUTION_CYCLE_DOWN: u32 = 0x4000_0008;

pub const RESOLUTION_UP: u32 = 0x4000_0009;

pub const RESOLUTION_DOWN: u32 = 0x4000_000A;

pub const RESOLUTION_ALTERNATE: u32 = 0x4000_000B;

pub const RESOLUTION_DEFAULT: u32 = 0x4000_000C;

pub const PROFILE_CYCLE_UP: u32 = 0x4000_000D;

pub const PROFILE_CYCLE_DOWN: u32 = 0x4000_000E;

pub const PROFILE_UP: u32 = 0x4000_000F;

pub const PROFILE_DOWN: u32 = 0x4000_0010;

pub const SECOND_MODE: u32 = 0x4000_0011;

pub const BATTERY_LEVEL: u32 = 0x4000_0012;

} // verus!
