//! Message framing and relay logic of an AIS-like position sharing system
//! for a fleet of boats: fixed-size message buffers, timestamped AIS lines,
//! and the duplicate filter that keeps broadcast cycles from repeating a
//! message.

pub mod broadcaster;
pub mod client;
pub mod server;
pub mod text;
pub mod utils;
