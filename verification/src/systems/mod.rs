pub mod commands;
pub mod interactions;
pub mod laws;
pub mod persistence;
