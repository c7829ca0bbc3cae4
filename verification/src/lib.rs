//! Core logic of a small voice-chat system: the wire messages, the TCP
//! message framing, the UDP audio packet codec, the server's room registry
//! and session decisions, the UDP relay's routing, and the client's
//! screen state.

pub mod msg;
pub mod codec;
pub mod packet;
pub mod rooms;
pub mod session;
pub mod relay;
pub mod client;
pub mod stream;
pub mod audio;
