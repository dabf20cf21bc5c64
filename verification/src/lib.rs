//! Network core for a real-time multiplayer game server: the wire codec for
//! the server's message set, the reliability and delivery layer that moves
//! those messages over an unreliable datagram transport, and the asset
//! directory and streaming pipeline built on top of them.

pub mod area;
pub mod asset;
pub mod asset_manager;
pub mod codec;
pub mod codec_laws;
pub mod decode;
pub mod direction;
pub mod packet;
pub mod shipper;
pub mod stream;
pub mod wire;
