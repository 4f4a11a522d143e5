//! Ground-station client core for a packetized micro-air-vehicle protocol:
//! a framing codec, link sequencing, and the request/response protocols
//! that a component runs against its peer.

pub mod component;
pub mod dialect;
pub mod error;
pub mod link;
pub mod wire;
