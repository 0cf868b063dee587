//! The exchange protocol of a peer-to-peer file drop: its wire format, the
//! registry of introduced peers, and the decisions of each exchange.
pub mod frame;
pub mod message;
pub mod protocol;
pub mod registry;
pub mod wire;
