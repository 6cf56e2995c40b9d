//! Asus ROG mice.
//!
//! Requests and answers are reports of 64 bytes: two bytes for the command or
//! the status, the least significant first, and 62 bytes of parameters.

pub mod driver;
pub mod laws;
pub mod load;
pub mod packet;
pub mod reader;
pub mod save;
pub mod settings;
pub mod table;
