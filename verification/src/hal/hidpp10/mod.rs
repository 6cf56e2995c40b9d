//! Logitech HID++ 1.0: the register-based protocol of the G500, G700 and G9.

pub mod binding;
pub mod commit;
pub mod driver;
pub mod laws;
pub mod load;
pub mod macros;
pub mod memory;
pub mod profile;
pub mod register;
pub mod table;
pub mod types;
