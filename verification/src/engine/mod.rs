//! Device state and the rules that govern it.

pub mod actor;
pub mod device;
pub mod device_database;
pub mod laws;
pub mod special_action;
pub mod test_device;
