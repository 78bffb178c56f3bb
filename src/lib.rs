//! A verified engine for the connection and channel handshakes of an
//! inter-chain message-passing protocol.
//!
//! Every handshake step is split into a read-only `*_validate` over a shared
//! reference to the chain state and a mutating `*_execute` whose contract
//! demands that the core conditions checked by validation hold.
pub mod types;
pub mod client;
pub mod context;
pub mod channel;
pub mod connection;
pub mod dispatch;
