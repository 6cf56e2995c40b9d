//! Mice that implement the OpenInput protocol.

pub mod driver;
pub mod laws;
pub mod report;
