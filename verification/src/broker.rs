//! The broker that multiplexes one connection: its vocabulary, its dispatch
//! table, and the decisions it takes for every event.

pub mod model;
pub mod table;
pub mod engine;
pub mod laws;
