//! Bridge core for relaying OSC (Open Sound Control) messages to WebSocket
//! clients: an argument encoder producing a tagged JSON wire format, a message
//! normalizer, a bounded lossy fan-out bus with independent per-subscriber
//! cursors, and the decision logic of the ingest and subscriber loops.

pub mod bus;
pub mod config;
pub mod encode;
pub mod ingest;
pub mod types;
pub mod wire;
