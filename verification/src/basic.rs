//! A minimal standalone WebSocket layer: a frame reader and writer over
//! byte buffers, and the HTTP upgrade check, independent of the full
//! session machinery.
use vstd::prelude::*;
use crate::buffer::ByteCursor;
use crate::error::{CapacityError, Error};
use crate::handshake::{derive_accept_key, spec_accept_key_of};
use crate::header::{spec_format_header, spec_parse_header, FrameHeader, HeaderParse};
use crate::http::{
    header_contains_token,
    spec_contains_token,
    spec_eq_ignore_case,
    spec_find_header,
    spec_hn_connection,
    spec_hn_sec_websocket_accept,
    spec_hn_sec_websocket_key,
    spec_hn_sec_websocket_version,
    spec_hn_thirteen,
    spec_hn_upgrade,
    spec_hn_websocket,
    spec_trim,
    trim_bytes,
    HttpRequest,
    HttpResponse,
};
use crate::mask::{apply_mask, spec_masked, MaskKey};

verus! {

/// A standalone frame opcode.
#[derive(Debug, Clone, Copy, PartialEq, Eq, Structural)]
pub enum OpCode {
    /// A continuation frame.
    Continuation,
    /// A text frame.
    Text,
    /// A binary frame.
    Binary,
    /// A close frame.
    Close,
    /// A ping frame.
    Ping,
    /// A pong frame.
    Pong,
    /// Any other opcode nibble.
    Other(u8),
}

impl OpCode {
    /// The standalone opcode standing for a full-protocol opcode.
    pub open spec fn spec_of(op: crate::opcode::OpCode) -> OpCode {
        match op {
            crate::opcode::OpCode::Data(crate::opcode::Data::Continuation) => OpCode::Continuation,
            crate::opcode::OpCode::Data(crate::opcode::Data::Text) => OpCode::Text,
            crate::opcode::OpCode::Data(crate::opcode::Data::Binary) => OpCode::Binary,
            crate::opcode::OpCode::Data(crate::opcode::Data::Reserved(b)) => OpCode::Other(b),
            crate::opcode::OpCode::Control(crate::opcode::Control::Close) => OpCode::Close,
            crate::opcode::OpCode::Control(crate::opcode::Control::Ping) => OpCode::Ping,
            crate::opcode::OpCode::Control(crate::opcode::Control::Pong) => OpCode::Pong,
            crate::opcode::OpCode::Control(crate::opcode::Control::Reserved(b)) => OpCode::Other(b),
        }
    }

    /// The full-protocol opcode this one stands for.
    pub open spec fn spec_to_protocol(self) -> crate::opcode::OpCode {
        match self {
            OpCode::Continuation => crate::opcode::OpCode::Data(
                crate::opcode::Data::Continuation,
            ),
            OpCode::Text => crate::opcode::OpCode::Data(crate::opcode::Data::Text),
            OpCode::Binary => crate::opcode::OpCode::Data(crate::opcode::Data::Binary),
            OpCode::Close => crate::opcode::OpCode::Control(crate::opcode::Control::Close),
            OpCode::Ping => crate::opcode::OpCode::Control(crate::opcode::Control::Ping),
            OpCode::Pong => crate::opcode::OpCode::Control(crate::opcode::Control::Pong),
            OpCode::Other(b) => if b <= 7 {
                crate::opcode::OpCode::Data(crate::opcode::Data::Reserved(b))
            } else {
                crate::opcode::OpCode::Control(crate::opcode::Control::Reserved(b))
            },
        }
    }

    /// Convert a full-protocol opcode.
    pub fn of(op: crate::opcode::OpCode) -> (r: OpCode)
        ensures
            r == OpCode::spec_of(op),
    {
        match op {
            crate::opcode::OpCode::Data(crate::opcode::Data::Continuation) => OpCode::Continuation,
            crate::opcode::OpCode::Data(crate::opcode::Data::Text) => OpCode::Text,
            crate::opcode::OpCode::Data(crate::opcode::Data::Binary) => OpCode::Binary,
            crate::opcode::OpCode::Data(crate::opcode::Data::Reserved(b)) => OpCode::Other(b),
            crate::opcode::OpCode::Control(crate::opcode::Control::Close) => OpCode::Close,
            crate::opcode::OpCode::Control(crate::opcode::Control::Ping) => OpCode::Ping,
            crate::opcode::OpCode::Control(crate::opcode::Control::Pong) => OpCode::Pong,
            crate::opcode::OpCode::Control(crate::opcode::Control::Reserved(b)) => OpCode::Other(b),
        }
    }

    /// Convert to the full-protocol opcode.
    pub fn to_protocol(self) -> (r: crate::opcode::OpCode)
        ensures
            r == self.spec_to_protocol(),
    {
        match self {
            OpCode::Continuation => crate::opcode::OpCode::Data(
                crate::opcode::Data::Continuation,
            ),
            OpCode::Text => crate::opcode::OpCode::Data(crate::opcode::Data::Text),
            OpCode::Binary => crate::opcode::OpCode::Data(crate::opcode::Data::Binary),
            OpCode::Close => crate::opcode::OpCode::Control(crate::opcode::Control::Close),
            OpCode::Ping => crate::opcode::OpCode::Control(crate::opcode::Control::Ping),
            OpCode::Pong => crate::opcode::OpCode::Control(crate::opcode::Control::Pong),
            OpCode::Other(b) => if b <= 7 {
                crate::opcode::OpCode::Data(crate::opcode::Data::Reserved(b))
            } else {
                crate::opcode::OpCode::Control(crate::opcode::Control::Reserved(b))
            },
        }
    }
}

/// Failure of the standalone upgrade check.
#[derive(Debug, Clone, Copy, PartialEq, Eq, Structural)]
pub enum HandshakeError {
    /// The Upgrade or Connection header is missing or wrong.
    MissingUpgradeHeaders,
    /// The Sec-WebSocket-Version header is not 13.
    InvalidVersion,
    /// The Sec-WebSocket-Key header is missing.
    MissingWebSocketKey,
}

/// A standalone WebSocket frame.
#[derive(Debug, Clone, PartialEq, Eq)]
pub struct WebSocketFrame {
    /// Whether the frame is final.
    pub fin: bool,
    /// The frame opcode.
    pub opcode: OpCode,
    /// The unmasked payload.
    pub payload: Vec<u8>,
    /// Whether the frame arrived masked.
    pub is_masked: bool,
    /// The masking key, if the frame arrived masked.
    pub masking_key: Option<MaskKey>,
}

impl WebSocketFrame {
    /// A frame fit for writing: a plain opcode nibble.
    pub open spec fn wf(&self) -> bool {
        match self.opcode {
            OpCode::Other(b) => (3 <= b && b <= 7) || (11 <= b && b <= 15),
            _ => true,
        }
    }

    /// Read one frame from the cursor. Returns `None` and leaves the
    /// position alone if the bytes at hand are not enough for the whole
    /// frame; applies the mask when one is present.
    pub fn read_from(cursor: &mut ByteCursor) -> (r: Result<Option<WebSocketFrame>, Error>)
        requires
            old(cursor).wf(),
        ensures
            final(cursor).wf(),
            final(cursor).data == old(cursor).data,
            match spec_parse_header(old(cursor).rest()) {
                HeaderParse::Incomplete => r matches Ok(o) && o is None && final(cursor).pos == old(
                    cursor,
                ).pos,
                HeaderParse::BadOpcode(n) => r matches Err(e) && e
                    == crate::header::spec_bad_opcode_error(n),
                HeaderParse::Done(h, length, consumed) => {
                    let after = old(cursor).rest().skip(consumed);
                    if length > after.len() {
                        r matches Ok(o) && o is None && final(cursor).pos == old(cursor).pos
                    } else {
                        let raw = after.take(length as int);
                        r matches Ok(o) && o matches Some(f) && f.fin == h.fin && f.opcode
                            == OpCode::spec_of(h.opcode) && f.is_masked == (h.mask is Some)
                            && f.masking_key == h.mask && f.payload@ == (match h.mask {
                            Some(k) => spec_masked(raw, k.bytes()),
                            None => raw,
                        }) && final(cursor).pos == old(cursor).pos + consumed + length
                    }
                },
            },
    {
        let init = cursor.position();
        let parsed = FrameHeader::parse(cursor);
        match parsed {
            Err(e) => Err(e),
            Ok(None) => Ok(None),
            Ok(Some((h, length))) => {
                let rem = cursor.remaining();
                if length > rem as u64 {
                    cursor.set_position(init);
                    return Ok(None);
                }
                let mut payload = cursor.read_bytes(length as usize);
                match h.mask {
                    Some(k) => {
                        apply_mask(&mut payload, k);
                    },
                    None => {},
                }
                Ok(
                    Some(
                        WebSocketFrame {
                            fin: h.fin,
                            opcode: OpCode::of(h.opcode),
                            payload,
                            is_masked: h.mask.is_some(),
                            masking_key: h.mask,
                        },
                    ),
                )
            },
        }
    }

    /// Write the frame out to a buffer, unmasked, refusing a payload
    /// over the allowed maximum.
    pub fn write_to(&self, out: &mut Vec<u8>) -> (r: Result<(), Error>)
        requires
            self.wf(),
        ensures
            match r {
                Ok(()) => self.payload@.len() <= crate::MAX_ALLOWED_LEN && final(out)@ == old(out)@
                    + spec_format_header(
                    FrameHeader {
                        fin: self.fin,
                        rsv1: false,
                        rsv2: false,
                        rsv3: false,
                        opcode: self.opcode.spec_to_protocol(),
                        mask: None,
                    },
                    self.payload@.len() as u64,
                ) + self.payload@,
                Err(e) => self.payload@.len() > crate::MAX_ALLOWED_LEN && e == Error::Capacity(
                    CapacityError::MessageTooLarge {
                        size: self.payload@.len() as usize,
                        max: crate::MAX_ALLOWED_LEN,
                    },
                ) && *final(out) == *old(out),
            },
    {
        let len = self.payload.len();
        if len > crate::MAX_ALLOWED_LEN {
            return Err(
                Error::Capacity(
                    CapacityError::MessageTooLarge { size: len, max: crate::MAX_ALLOWED_LEN },
                ),
            );
        }
        let header = FrameHeader {
            fin: self.fin,
            rsv1: false,
            rsv2: false,
            rsv3: false,
            opcode: self.opcode.to_protocol(),
            mask: None,
        };
        header.format(len as u64, out);
        out.extend_from_slice(self.payload.as_slice());
        assert(final(out)@ =~= old(out)@ + spec_format_header(header, len as u64)
            + self.payload@);
        Ok(())
    }
}

/// Check an HTTP request for a WebSocket upgrade and build the
/// `101 Switching Protocols` response with the derived accept key.
pub fn try_websocket_upgrade(req: &HttpRequest) -> (r: Result<HttpResponse, HandshakeError>)
    ensures
        ({
            let hs = req.headers@;
            let upgrade_ok = spec_find_header(hs, spec_hn_upgrade()) matches Some(uv)
                && spec_eq_ignore_case(uv, spec_hn_websocket());
            let connection_ok = spec_find_header(hs, spec_hn_connection()) matches Some(cv)
                && spec_contains_token(cv, spec_hn_upgrade());
            let version_ok = spec_find_header(hs, spec_hn_sec_websocket_version()) matches Some(vv)
                && spec_trim(vv) == spec_hn_thirteen();
            if !(upgrade_ok && connection_ok) {
                r == Err::<HttpResponse, HandshakeError>(HandshakeError::MissingUpgradeHeaders)
            } else if !version_ok {
                r == Err::<HttpResponse, HandshakeError>(HandshakeError::InvalidVersion)
            } else if spec_find_header(hs, spec_hn_sec_websocket_key()) is None {
                r == Err::<HttpResponse, HandshakeError>(HandshakeError::MissingWebSocketKey)
            } else {
                r matches Ok(resp) && resp.status_code == 101 && spec_find_header(
                    resp.headers@,
                    spec_hn_sec_websocket_accept(),
                ) == Some(
                    spec_accept_key_of(
                        spec_trim(spec_find_header(hs, spec_hn_sec_websocket_key()).unwrap()),
                    ),
                )
            }
        }),
{
    let upgrade_ok = match req.get_header(&crate::http::hn_upgrade()) {
        Some(uv) => crate::http::eq_ignore_case(uv, &crate::http::hn_websocket()),
        None => false,
    };
    let connection_ok = match req.get_header(&crate::http::hn_connection()) {
        Some(cv) => header_contains_token(cv, &crate::http::hn_upgrade()),
        None => false,
    };
    if !(upgrade_ok && connection_ok) {
        return Err(HandshakeError::MissingUpgradeHeaders);
    }
    let version_ok = match req.get_header(&crate::http::hn_sec_websocket_version()) {
        Some(vv) => {
            let t = trim_bytes(vv);
            crate::http::bytes_eq(&t, &crate::http::hn_thirteen())
        },
        None => false,
    };
    if !version_ok {
        return Err(HandshakeError::InvalidVersion);
    }
    let key = match req.get_header(&crate::http::hn_sec_websocket_key()) {
        Some(kv) => trim_bytes(kv),
        None => {
            return Err(HandshakeError::MissingWebSocketKey);
        },
    };
    let accept = derive_accept_key(&key);
    let mut headers: Vec<(Vec<u8>, Vec<u8>)> = Vec::new();
    headers.push((crate::http::hn_upgrade(), crate::http::hn_websocket()));
    headers.push((crate::http::hn_connection(), crate::http::hn_upgrade()));
    headers.push((crate::http::hn_sec_websocket_accept(), accept));
    let resp = HttpResponse {
        status_code: 101,
        reason_phrase: crate::http::hn_switching_protocols(),
        headers,
        body: None,
    };
    proof {
        let hs2 = resp.headers@;
        assert(hs2[0].0@ == spec_hn_upgrade() && hs2[1].0@ == spec_hn_connection() && hs2[2].0@
            == spec_hn_sec_websocket_accept());
        assert(crate::http::spec_lower_seq(spec_hn_connection()).len() == 10
            && crate::http::spec_lower_seq(spec_hn_upgrade()).len() == 7
            && crate::http::spec_lower_seq(spec_hn_sec_websocket_accept()).len() == 20);
        assert(!spec_eq_ignore_case(hs2[0].0@, spec_hn_sec_websocket_accept()));
        assert(!spec_eq_ignore_case(hs2[1].0@, spec_hn_sec_websocket_accept()));
        crate::http::lemma_find_header_skip(hs2, spec_hn_sec_websocket_accept(), 2);
        assert(hs2.skip(2)[0] == hs2[2]);
    }
    Ok(resp)
}

} // verus!
