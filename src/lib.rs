//! Client side of a two-player state synchronisation protocol: the wire
//! codec of the registration handshake and of the streaming channel,
//! snapshot reconciliation, the session lifecycle, input integration and
//! latency tracking.

pub mod bytes;
pub mod input;
pub mod lifecycle;
pub mod reconcile;
pub mod session;
pub mod wire;
