//! Verified game rules of the Solarance space-trading server and client.
//!
//! Every function here works on plain values (integers, strings, vectors and
//! the small record types of each module); the database reads and writes,
//! rendering and floating-point movement live outside this crate.

pub mod construction;
pub mod factions;
pub mod fleet;
pub mod identity;
pub mod items;
pub mod market;
pub mod players;
pub mod stations;
pub mod tables;
pub mod trade;
