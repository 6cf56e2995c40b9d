//! Mice with SinoWealth controllers: Glorious Model O, G-Wolves Skoll, Genesis
//! Xenon 770, DreamMachines DM5 and the like.

pub mod button;
pub mod commit;
pub mod config;
pub mod driver;
pub mod laws;
pub mod protocol;
