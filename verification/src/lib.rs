//! Core of a small encrypted text-relay service: wire codec for message
//! frames, composite identifier generation, Diffie-Hellman key exchange,
//! symmetric payload encryption, per-connection session handling, and the
//! server-side broadcast engine.

pub mod channel;
pub mod client;
pub mod codec;
pub mod crypt;
pub mod id;
pub mod message;
pub mod server;
pub mod user;
