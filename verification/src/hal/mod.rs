//! Hardware protocols: what is sent to a device and what its answers mean.

pub mod asus;
pub mod error;
pub mod etekcity;
pub mod gskill;
pub mod hidpp;
pub mod hidpp10;
pub mod hidpp20;
pub mod laws;
pub mod logitech_g600;
pub mod marsgaming;
pub mod openinput;
pub mod sinowealth;
pub mod sinowealth_nubwo;
pub mod steelseries;
pub mod transport;
