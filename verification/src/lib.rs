//! Client-side building blocks for a Misskey streaming connection: the
//! multiplexing broker that shares one connection between calls, channels,
//! note subscriptions and broadcasts, and the small value types that travel
//! over it.

pub mod outside;
pub mod model;
pub mod error;
pub mod channel;
pub mod broker;
