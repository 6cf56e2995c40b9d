//! The Logitech HID++ 2.0 protocol, in which every capability of a device is a
//! numbered feature that is looked up at probe time.

pub mod apply;
pub mod binding;
pub mod commit;
pub mod driver;
pub mod eeprom;
pub mod error;
pub mod feature;
pub mod laws;
pub mod load_laws;
pub mod led;
pub mod live;
pub mod load;
pub mod sector;
pub mod sensor;
