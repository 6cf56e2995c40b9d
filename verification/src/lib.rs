//! The logic of `ratbagd`, a daemon that configures gaming mice, and of its
//! command-line client `ratbagctl`.
//!
//! Everything here works on plain values: device state, report bytes, and the
//! decisions that connect the two. Opening device nodes, waiting for reports
//! and talking over DBus is left to the program that uses this library.

pub mod bytes;
pub mod engine;
pub mod hal;
pub mod ratbagctl;
pub mod text;
