//! Small things that every part of the server uses.

pub mod config;
pub mod ids;
pub mod laws;
pub mod time;
pub mod xprm;
