//! What the command line tool makes of its arguments and of the answers of the
//! daemon.

pub mod args;
pub mod bus;
pub mod laws;
pub mod lines;
