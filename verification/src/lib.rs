//! Verified core of a peer-to-peer chat that links two peers through Tor onion services.

pub mod decimal;
pub mod text;
pub mod handshake;
pub mod peers;
pub mod onion;
pub mod launch;
pub mod pool;
pub mod chat;
pub mod session;
