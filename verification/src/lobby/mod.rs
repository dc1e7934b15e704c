//! Rooms and the lobby that lists them.

pub mod bridge_manager;
pub mod listing;
pub mod laws;
pub mod lobby_manager;
pub mod room;
pub mod room_info;
