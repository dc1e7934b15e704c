//! The relay: its messages, its connections and the peers that it relays between.

pub mod laws;
pub mod messages;
pub mod netconnection;
pub mod peer_relay;
pub mod poll;
pub mod protocol;
pub mod session_manager;
