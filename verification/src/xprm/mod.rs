//! The XPrm text format, which some games read in place of JSON.

pub mod laws;
pub mod ser;
pub mod value;
