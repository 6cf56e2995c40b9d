//! Logitech G600 MMO gaming mouse: 3 profiles, 4 DPI slots, 41 buttons, one
//! LED.

pub mod action;
pub mod driver;
pub mod laws;
pub mod report;
