//! What stands in front of the services.

pub mod guard;
pub mod key_token;
