//! The Java edition protocol: login, handoff to the backend, and play.

pub mod backend;
pub mod connection;
pub mod handoff;
pub mod laws;
pub mod login;
pub mod packets;
pub mod protocol;
pub mod status;
pub mod support;
pub mod types;
