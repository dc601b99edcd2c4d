//! The game backend of the Java edition.

pub mod effects;
pub mod handler;
pub mod laws;
pub mod packet;
pub mod play;
pub mod session;
pub mod session_laws;
pub mod state;
pub mod view;
