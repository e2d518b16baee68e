//! Compression support for the permessage-deflate extension: configuration,
//! and raw-deflate helpers around an outside compression library.
use vstd::prelude::*;
use std::io::Read;
use crate::error::{Error, IoErrorKind};

verus! {

/// Configuration of the permessage-deflate extension.
#[derive(Debug, Clone, Copy)]
pub struct WebSocketCompressionConfig {
    /// Whether the extension is offered or accepted at all.
    pub enabled: bool,
    /// Whether the client must reset its compression context per message.
    pub client_no_context_takeover: bool,
    /// Whether the server must reset its compression context per message.
    pub server_no_context_takeover: bool,
    /// The client's LZ77 window size exponent, if constrained.
    pub client_max_window_bits: Option<u8>,
    /// The server's LZ77 window size exponent, if constrained.
    pub server_max_window_bits: Option<u8>,
}

impl Default for WebSocketCompressionConfig {
    /// Compression is off by default, with no constraints set.
    fn default() -> (r: Self)
        ensures
            r.enabled == false,
            r.client_no_context_takeover == false,
            r.server_no_context_takeover == false,
            r.client_max_window_bits is None,
            r.server_max_window_bits is None,
    {
        WebSocketCompressionConfig {
            enabled: false,
            client_no_context_takeover: false,
            server_no_context_takeover: false,
            client_max_window_bits: None,
            server_max_window_bits: None,
        }
    }
}

/// The four-byte tail that the extension strips from a deflate stream.
pub open spec fn spec_deflate_trailer() -> Seq<u8> {
    seq![0u8, 0u8, 255u8, 255u8]
}

/// What the deflate encoder produces for given bytes; a function of the
/// input alone at a fixed compression level.
pub uninterp spec fn deflate_of(data: Seq<u8>) -> Seq<u8>;

/// What the deflate decoder produces for given bytes, when it succeeds.
pub uninterp spec fn inflate_of(data: Seq<u8>) -> Seq<u8>;

/// Relies on flate2's `DeflateEncoder` at the default compression level:
/// the result depends on the input bytes alone.
#[verifier::external_body]
fn deflate(data: &Vec<u8>) -> (r: Result<Vec<u8>, Error>)
    ensures
        r matches Ok(out) ==> out@ == deflate_of(data@),
{
    let mut encoder = flate2::bufread::DeflateEncoder::new(
        data.as_slice(),
        flate2::Compression::default(),
    );
    let mut out = Vec::new();
    match encoder.read_to_end(&mut out) {
        Ok(_) => Ok(out),
        Err(_) => Err(Error::Io(IoErrorKind::Other)),
    }
}

/// Relies on flate2's `DeflateDecoder`: on success the result depends on
/// the input bytes alone.
#[verifier::external_body]
fn inflate(data: &Vec<u8>) -> (r: Result<Vec<u8>, Error>)
    ensures
        r matches Ok(out) ==> out@ == inflate_of(data@),
{
    let mut decoder = flate2::bufread::DeflateDecoder::new(data.as_slice());
    let mut out = Vec::new();
    match decoder.read_to_end(&mut out) {
        Ok(_) => Ok(out),
        Err(_) => Err(Error::Io(IoErrorKind::Other)),
    }
}

/// A per-message deflate compressor.
#[derive(Debug, Clone, Copy)]
pub struct Compressor {
    /// Whether the compression context is reset for every message.
    pub no_context_takeover: bool,
}

impl Compressor {
    /// Create a compressor.
    pub fn new(no_context_takeover: bool) -> (r: Self)
        ensures
            r == (Compressor { no_context_takeover }),
    {
        Compressor { no_context_takeover }
    }

    /// Compress one message payload.
    pub fn compress(&mut self, data: &Vec<u8>) -> (r: Result<Vec<u8>, Error>)
        ensures
            r matches Ok(out) ==> out@ == deflate_of(data@),
    {
        deflate(data)
    }
}

/// A per-message deflate decompressor.
#[derive(Debug, Clone, Copy)]
pub struct Decompressor {
    /// Whether the compression context is reset for every message.
    pub no_context_takeover: bool,
}

impl Decompressor {
    /// Create a decompressor.
    pub fn new(no_context_takeover: bool) -> (r: Self)
        ensures
            r == (Decompressor { no_context_takeover }),
    {
        Decompressor { no_context_takeover }
    }

    /// Decompress one message payload, restoring the stripped trailer
    /// before handing the stream to the decoder.
    pub fn decompress(&mut self, data: &Vec<u8>) -> (r: Result<Vec<u8>, Error>)
        ensures
            r matches Ok(out) ==> out@ == inflate_of(data@ + spec_deflate_trailer()),
    {
        let mut with_trailer: Vec<u8> = Vec::new();
        with_trailer.extend_from_slice(data.as_slice());
        with_trailer.push(0);
        with_trailer.push(0);
        with_trailer.push(255);
        with_trailer.push(255);
        assert(with_trailer@ =~= data@ + spec_deflate_trailer());
        inflate(&with_trailer)
    }
}

/// Compress a payload and append the extension trailer.
pub fn compress(data: &Vec<u8>) -> (r: Result<Vec<u8>, Error>)
    ensures
        r matches Ok(out) ==> out@ == deflate_of(data@) + spec_deflate_trailer(),
{
    match deflate(data) {
        Ok(mut out) => {
            out.push(0);
            out.push(0);
            out.push(255);
            out.push(255);
            assert(out@ =~= deflate_of(data@) + spec_deflate_trailer());
            Ok(out)
        },
        Err(e) => Err(e),
    }
}

/// Strip the extension trailer if it is present, then decompress.
pub fn decompress(data: &Vec<u8>) -> (r: Result<Vec<u8>, Error>)
    ensures
        r matches Ok(out) ==> out@ == inflate_of(
            if data@.len() >= 4 && data@.skip(data@.len() - 4) == spec_deflate_trailer() {
                data@.take(data@.len() - 4)
            } else {
                data@
            },
        ),
{
    let n = data.len();
    let has_trailer = n >= 4 && data[n - 4] == 0 && data[n - 3] == 0 && data[n - 2] == 255 && data[n
        - 1] == 255;
    proof {
        if n >= 4 {
            assert((data@.skip(n - 4) == spec_deflate_trailer()) == (data@[n - 4] == 0 && data@[n
                - 3] == 0 && data@[n - 2] == 255 && data@[n - 1] == 255)) by {
                if data@[n - 4] == 0 && data@[n - 3] == 0 && data@[n - 2] == 255 && data@[n - 1]
                    == 255 {
                    assert(data@.skip(n - 4) =~= spec_deflate_trailer());
                }
            }
        }
    }
    if has_trailer {
        let mut stripped: Vec<u8> = Vec::new();
        stripped.extend_from_slice(data.as_slice());
        stripped.truncate(n - 4);
        assert(stripped@ =~= data@.take(n - 4));
        inflate(&stripped)
    } else {
        inflate(data)
    }
}

} // verus!
