//! The world: terrain, its storage, and the players in it.

pub mod cache;
pub mod chunk_gen;
pub mod chunk_packet;
pub mod chunk_reader;
pub mod database;
pub mod grid;
pub mod laws;
pub mod player_store;
pub mod storage;
pub mod storage_laws;
pub mod terrain;
