//! The bridge between Minecraft clients and the game backend.

pub mod bedrock;
pub mod java;
pub mod listener;
pub mod proxy;
pub mod utils;
