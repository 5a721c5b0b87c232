//! Real-time distribution core of a chat/voice backend.
//!
//! The library holds the parts of the system that carry live state between
//! connections: a bounded multi-subscriber broadcast bus for domain update
//! events, a presence table of which users are joined to which voice channel,
//! and the dispatch rules of the voice signaling relay. Everything here is
//! plain in-memory logic with contracts; the surrounding I/O (HTTP routes,
//! WebSocket pumps, the SQL store) lives outside and hands this library plain
//! values.

use vstd::prelude::*;

pub mod bus;
pub mod channel;
pub mod error;
pub mod message;
pub mod server;
pub mod snapshot;
pub mod typing;
pub mod user;
pub mod voice_signal;

verus! {

/// Retention window of each broadcast bus: how many undelivered events a bus
/// keeps before the slowest subscribers start to lag.
pub const MAX_BROADCAST: usize = 1000;

} // verus!
