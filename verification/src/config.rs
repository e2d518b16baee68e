//! The session configuration and its validity rule.
use vstd::prelude::*;
use crate::compression::WebSocketCompressionConfig;

verus! {

/// The configuration for a WebSocket session.
#[derive(Debug, Clone, Copy)]
pub struct WebSocketConfig {
    /// Read buffer capacity hint handed to the driver.
    /// The default value is 128 KiB.
    pub read_buffer_size: usize,
    /// The target fill of the write buffer before a write asks the driver
    /// to drain it. The default value is 128 KiB.
    pub write_buffer_size: usize,
    /// The hard cap of the write buffer; passing it fails a write with
    /// `WriteBufferFull`. Unlimited by default. Must strictly exceed
    /// `write_buffer_size`.
    pub max_write_buffer_size: usize,
    /// The maximum size of an incoming message after reassembly; `None`
    /// means no limit. The default value is 64 MiB.
    pub max_message_size: Option<usize>,
    /// The maximum payload size of a single incoming frame; `None` means
    /// no limit. The default value is 16 MiB.
    pub max_frame_size: Option<usize>,
    /// Whether a server accepts unmasked frames from a client, against
    /// the strict reading of the protocol. Off by default.
    pub accept_unmasked_frames: bool,
    /// Configuration of the compression extension.
    pub compression: WebSocketCompressionConfig,
}

impl Default for WebSocketConfig {
    /// The default configuration.
    fn default() -> (r: Self)
        ensures
            r.read_buffer_size == 128 * 1024,
            r.write_buffer_size == 128 * 1024,
            r.max_write_buffer_size == usize::MAX,
            r.max_message_size matches Some(m) && m == 64usize * 1024 * 1024,
            r.max_frame_size matches Some(f) && f == 16usize * 1024 * 1024,
            r.accept_unmasked_frames == false,
            r.compression.enabled == false,
            r.is_valid(),
    {
        WebSocketConfig {
            read_buffer_size: 128 * 1024,
            write_buffer_size: 128 * 1024,
            max_write_buffer_size: usize::MAX,
            max_message_size: Some(64 * 1024 * 1024),
            max_frame_size: Some(16 * 1024 * 1024),
            accept_unmasked_frames: false,
            compression: WebSocketCompressionConfig::default(),
        }
    }
}

impl WebSocketConfig {
    /// The validity rule: the write buffer cap strictly exceeds the
    /// write buffer target, so a write can always make progress.
    pub open spec fn is_valid(&self) -> bool {
        self.max_write_buffer_size > self.write_buffer_size
    }

    /// Set the read buffer capacity hint.
    pub fn read_buffer_size(self, size: usize) -> (r: Self)
        requires
            size > 0,
        ensures
            r == (WebSocketConfig { read_buffer_size: size, ..self }),
    {
        WebSocketConfig { read_buffer_size: size, ..self }
    }

    /// Set the write buffer target fill.
    pub fn write_buffer_size(self, size: usize) -> (r: Self)
        requires
            size > 0,
        ensures
            r == (WebSocketConfig { write_buffer_size: size, ..self }),
    {
        WebSocketConfig { write_buffer_size: size, ..self }
    }

    /// Set the write buffer hard cap.
    pub fn max_write_buffer_size(self, size: usize) -> (r: Self)
        requires
            size > 0,
        ensures
            r == (WebSocketConfig { max_write_buffer_size: size, ..self }),
    {
        WebSocketConfig { max_write_buffer_size: size, ..self }
    }

    /// Set the maximum incoming message size.
    pub fn max_message_size(self, size: Option<usize>) -> (r: Self)
        requires
            size matches Some(s) ==> s > 0,
        ensures
            r == (WebSocketConfig { max_message_size: size, ..self }),
    {
        WebSocketConfig { max_message_size: size, ..self }
    }

    /// Set the maximum incoming frame payload size.
    pub fn max_frame_size(self, size: Option<usize>) -> (r: Self)
        requires
            size matches Some(s) ==> s > 0,
        ensures
            r == (WebSocketConfig { max_frame_size: size, ..self }),
    {
        WebSocketConfig { max_frame_size: size, ..self }
    }

    /// Set whether a server accepts unmasked frames.
    pub fn accept_unmasked_frames(self, accept_unmasked_frames: bool) -> (r: Self)
        ensures
            r == (WebSocketConfig { accept_unmasked_frames, ..self }),
    {
        WebSocketConfig { accept_unmasked_frames, ..self }
    }

    /// Check the validity rule.
    pub fn asset_valid(&self) -> (r: bool)
        ensures
            r == self.is_valid(),
    {
        self.max_write_buffer_size > self.write_buffer_size
    }
}

} // verus!
