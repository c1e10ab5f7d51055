//! Connection-level core of a Nostr relay: typed protocol messages, a pure
//! message dispatcher, per-connection subscription state, filter matching,
//! and a cross-connection subscription registry for event fan-out.

pub mod codec;
pub mod dispatch;
pub mod filter;
pub mod msg;
pub mod registry;
pub mod session;
pub mod subs;
