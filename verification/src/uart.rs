//! Serial ports.

pub mod lpc;
