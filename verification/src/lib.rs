//! A WebSocket protocol engine: frame codec, masking, fragment reassembly,
//! opening-handshake state machines and the message-level session state
//! machine, with machine-checked contracts.
use vstd::prelude::*;

pub mod basic;
pub mod buffer;
pub mod client;
pub mod codec;
pub mod compression;
pub mod config;
pub mod error;
pub mod frame;
pub mod handshake;
pub mod header;
pub mod http;
pub mod machine;
pub mod mask;
pub mod message;
pub mod opcode;
pub mod server;
pub mod utf8;
pub mod util;
pub mod websocket;

verus! {

/// Maximum payload length accepted by the standalone frame writer.
pub const MAX_ALLOWED_LEN: usize = 16 * 1024 * 1024;

/// Maximum payload size of a control frame (close, ping, pong).
pub const MAX_CONTROL_FRAME_PAYLOAD: usize = 125;

/// Maximum number of continuation frames accepted for one message.
pub const MAX_CONTINUATION_FRAMES: usize = 1024;

} // verus!
