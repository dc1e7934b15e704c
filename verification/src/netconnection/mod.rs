//! Connections and the messages that travel over them.

pub mod codec;
pub mod laws;
pub mod netconnection;
