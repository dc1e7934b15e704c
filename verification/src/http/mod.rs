//! What the HTTP server decides: whom it answers, and what with.

pub mod laws;
pub mod lobby;
pub mod middleware;
pub mod utils;
pub mod ws;
