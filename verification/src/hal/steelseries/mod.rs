//! Mice of SteelSeries, which speak one of four versions of a protocol.

pub mod button;
pub mod commit;
pub mod driver;
pub mod laws;
pub mod led;
pub mod report;
