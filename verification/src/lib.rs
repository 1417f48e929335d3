//! Deterministic simulation core and frame-synchronisation rules of a small
//! rollback-networked arena game.

pub mod cells;
pub mod checksum;
pub mod connection;
pub mod encoding;
pub mod game;
pub mod input;
pub mod laws;
pub mod pacer;
pub mod state;
pub mod store;
