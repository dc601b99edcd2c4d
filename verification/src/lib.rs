//! Verified core of the Kraken Minecraft server.

pub mod big_endian;
pub mod chunk;
pub mod config;
pub mod console;
pub mod error;
pub mod float_bits;
pub mod number;
pub mod operator_store;
pub mod record;
pub mod systems;
pub mod test_events;
pub mod text;
pub mod viakraken;
pub mod world;
