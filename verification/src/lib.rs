//! Relay server for multiplayer games: wire codec, relay protocol, rooms and lobby.

pub mod buffer;
pub mod http;
pub mod lobby;
pub mod netconnection;
pub mod relay;
pub mod setup;
pub mod text;
pub mod utils;
pub mod xprm;
