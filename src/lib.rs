//! A record store for per-identity introductions and their ordered replies,
//! addressed by program-derived addresses.
pub mod address;
pub mod codec;
pub mod error;
pub mod instruction;
pub mod lifecycle;
pub mod processor;
pub mod state;
