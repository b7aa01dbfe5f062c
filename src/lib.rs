//! A text-chat relay: the wire codec, length-prefixed framing, the server's
//! client registry and relay rules, and the client's session rules.

pub mod messages;
pub mod framing;
pub mod registry;
pub mod server;
pub mod client;
