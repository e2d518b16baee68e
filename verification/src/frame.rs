//! The WebSocket frame: a header plus an owned payload, and the close
//! frame payload format.
use vstd::prelude::*;
use crate::error::{Error, ProtocolError};
use crate::header::{spec_format_header, spec_parse_header, FrameHeader, MAX_HEADER_SIZE};
use crate::mask::{apply_mask, spec_masked, MaskKey};
use crate::opcode::{Control, Data, OpCode};
use crate::utf8::{spec_is_valid_utf8, Utf8Bytes};

verus! {

/// The close command carried by a close frame.
#[derive(Debug, Clone, PartialEq, Eq)]
pub struct CloseFrame {
    /// The reason as a code.
    pub code: crate::opcode::CloseCode,
    /// The reason as a text string.
    pub reason: Utf8Bytes,
}

/// A WebSocket frame.
#[derive(Debug, Clone, PartialEq, Eq)]
pub struct Frame {
    /// The frame header.
    pub header: FrameHeader,
    /// The unmasked payload. A mask in the header is applied on emission.
    pub payload: Vec<u8>,
}

/// The payload as it goes on the wire: masked if the header has a mask.
pub open spec fn spec_wire_payload(f: Frame) -> Seq<u8> {
    match f.header.mask {
        Some(k) => spec_masked(f.payload@, k.bytes()),
        None => f.payload@,
    }
}

/// The complete wire bytes of a frame.
pub open spec fn spec_frame_bytes(f: Frame) -> Seq<u8> {
    spec_format_header(f.header, f.payload@.len() as u64) + spec_wire_payload(f)
}

/// The close frame payload: the code in two big-endian bytes, then the
/// reason text; empty when there is no close command.
pub open spec fn spec_close_payload(msg: Option<CloseFrame>) -> Seq<u8> {
    match msg {
        Some(cf) => seq![
            (cf.code.spec_to_u16() >> 8) as u8,
            cf.code.spec_to_u16() as u8,
        ] + cf.reason@,
        None => Seq::empty(),
    }
}

/// A frame encoded without a mask parses back to the identical frame:
/// the same header, the announced payload length, and the payload bytes
/// right after the header.
pub proof fn lemma_frame_round_trip(f: Frame)
    requires
        f.header.opcode.is_wire_form(),
        !f.header.opcode.spec_is_reserved(),
        f.header.mask is None,
        f.payload@.len() <= u64::MAX,
    ensures
        ({
            let bytes = spec_frame_bytes(f);
            &&& spec_parse_header(bytes) matches crate::header::HeaderParse::Done(h2, l2, c2)
            &&& spec_parse_header(bytes) == crate::header::HeaderParse::Done(
                f.header,
                f.payload@.len() as u64,
                spec_format_header(f.header, f.payload@.len() as u64).len() as int,
            )
            &&& bytes.skip(
                spec_format_header(f.header, f.payload@.len() as u64).len() as int,
            ) == f.payload@
        }),
{
    let len = f.payload@.len() as u64;
    let head = spec_format_header(f.header, len);
    crate::header::lemma_header_round_trip(f.header, len, f.payload@);
    assert(spec_wire_payload(f) == f.payload@);
    assert(spec_frame_bytes(f) == head + f.payload@);
    assert((head + f.payload@).skip(head.len() as int) =~= f.payload@);
}

/// A masked wire encoding parses back to the same header and announced
/// length, and applying the same key to the bytes after the header
/// restores the original payload: masking is its own inverse on the
/// wire.
pub proof fn lemma_masked_wire_round_trip(h: FrameHeader, payload: Seq<u8>, k: MaskKey)
    requires
        h.opcode.is_wire_form(),
        !h.opcode.spec_is_reserved(),
        h.mask == Some(k),
        payload.len() <= u64::MAX,
    ensures
        ({
            let bytes = spec_format_header(h, payload.len() as u64) + spec_masked(
                payload,
                k.bytes(),
            );
            let head_len = spec_format_header(h, payload.len() as u64).len() as int;
            &&& spec_parse_header(bytes) == crate::header::HeaderParse::Done(
                h,
                payload.len() as u64,
                head_len,
            )
            &&& bytes.skip(head_len) == spec_masked(payload, k.bytes())
            &&& spec_masked(bytes.skip(head_len), k.bytes()) == payload
        }),
{
    let len = payload.len() as u64;
    let head = spec_format_header(h, len);
    let wire = spec_masked(payload, k.bytes());
    crate::header::lemma_header_round_trip(h, len, wire);
    assert((head + wire).skip(head.len() as int) =~= wire);
    crate::mask::lemma_mask_involutive(payload, k.bytes());
}

/// A frame encoded with a mask parses back to a frame with the same
/// shape, and applying the same key to the extracted payload restores
/// the original bytes.
pub proof fn lemma_masked_frame_round_trip(f: Frame, k: MaskKey)
    requires
        f.header.opcode.is_wire_form(),
        !f.header.opcode.spec_is_reserved(),
        f.header.mask == Some(k),
        f.payload@.len() <= u64::MAX,
    ensures
        ({
            let bytes = spec_frame_bytes(f);
            let head_len = spec_format_header(f.header, f.payload@.len() as u64).len() as int;
            &&& spec_parse_header(bytes) == crate::header::HeaderParse::Done(
                f.header,
                f.payload@.len() as u64,
                head_len,
            )
            &&& bytes.skip(head_len) == spec_masked(f.payload@, k.bytes())
            &&& spec_masked(bytes.skip(head_len), k.bytes()) == f.payload@
        }),
{
    lemma_masked_wire_round_trip(f.header, f.payload@, k);
    assert(spec_wire_payload(f) == spec_masked(f.payload@, k.bytes()));
    assert(spec_frame_bytes(f) == spec_format_header(f.header, f.payload@.len() as u64)
        + spec_masked(f.payload@, k.bytes()));
}

impl Frame {
    /// Initializes a new frame.
    pub fn new(header: FrameHeader, payload: Vec<u8>) -> (r: Frame)
        ensures
            r.header == header,
            r.payload == payload,
    {
        Frame { header, payload }
    }

    /// The length of the frame on the wire: header plus payload.
    pub fn len(&self) -> (r: usize)
        requires
            self.payload@.len() + MAX_HEADER_SIZE <= usize::MAX,
        ensures
            r == spec_frame_bytes(*self).len(),
    {
        let length = self.payload.len();
        let r = self.header.len(length as u64) + length;
        proof {
            match self.header.mask {
                Some(k) => {
                    assert(spec_wire_payload(*self).len() == self.payload@.len());
                },
                None => {},
            }
        }
        r
    }

    /// Whether the frame is empty on the wire; it never is.
    pub fn is_empty(&self) -> (r: bool)
        requires
            self.payload@.len() + MAX_HEADER_SIZE <= usize::MAX,
        ensures
            r == (spec_frame_bytes(*self).len() == 0),
    {
        self.len() == 0
    }

    /// A reference to the frame's header.
    pub fn header(&self) -> (r: &FrameHeader)
        ensures
            r == &self.header,
    {
        &self.header
    }

    /// A mutable reference to the frame's header.
    pub fn header_mut(&mut self) -> (r: &mut FrameHeader)
        ensures
            *r == old(self).header,
            final(self).header == *final(r),
            final(self).payload == old(self).payload,
    {
        &mut self.header
    }

    /// A reference to the frame's payload.
    pub fn payload(&self) -> (r: &Vec<u8>)
        ensures
            r == &self.payload,
    {
        &self.payload
    }

    /// Whether the frame is masked.
    pub fn is_masked(&self) -> (r: bool)
        ensures
            r == (self.header.mask is Some),
    {
        self.header.mask.is_some()
    }

    /// Put a random mask into the header. The payload is not changed;
    /// the mask is applied on emission.
    pub fn set_random_mask(&mut self)
        ensures
            final(self).header.fin == old(self).header.fin,
            final(self).header.rsv1 == old(self).header.rsv1,
            final(self).header.rsv2 == old(self).header.rsv2,
            final(self).header.rsv3 == old(self).header.rsv3,
            final(self).header.opcode == old(self).header.opcode,
            final(self).header.mask is Some,
            final(self).payload == old(self).payload,
    {
        self.header.set_random_mask();
    }

    /// Consume the frame into its payload as a checked text string.
    pub fn into_text(self) -> (r: Result<Utf8Bytes, Error>)
        ensures
            match r {
                Ok(u) => u.wf() && u@ == self.payload@ && spec_is_valid_utf8(self.payload@),
                Err(e) => e == Error::Utf8 && !spec_is_valid_utf8(self.payload@),
            },
    {
        Utf8Bytes::from_vec(self.payload)
    }

    /// Consume the frame into its payload.
    pub fn into_payload(self) -> (r: Vec<u8>)
        ensures
            r == self.payload,
    {
        self.payload
    }

    /// Consume the frame into a close command, checking the payload format.
    pub fn into_close(self) -> (r: Result<Option<CloseFrame>, Error>)
        ensures
            match r {
                Ok(None) => self.payload@.len() == 0,
                Ok(Some(cf)) => self.payload@.len() >= 2 && cf.code
                    == crate::opcode::CloseCode::spec_from_u16(
                    ((self.payload@[0] as u16) << 8) | (self.payload@[1] as u16),
                ) && cf.reason@ == self.payload@.skip(2) && spec_is_valid_utf8(
                    self.payload@.skip(2),
                ),
                Err(Error::Protocol(ProtocolError::InvalidCloseFrame)) => self.payload@.len() == 1,
                Err(Error::Utf8) => self.payload@.len() >= 2 && !spec_is_valid_utf8(
                    self.payload@.skip(2),
                ),
                Err(_) => false,
            },
    {
        if self.payload.len() == 0 {
            Ok(None)
        } else if self.payload.len() == 1 {
            Err(Error::Protocol(ProtocolError::InvalidCloseFrame))
        } else {
            let b0 = self.payload[0];
            let b1 = self.payload[1];
            let code_val: u16 = ((b0 as u16) << 8) | (b1 as u16);
            let code = crate::opcode::CloseCode::from_u16(code_val);
            let mut tail = self.payload;
            let reason_bytes = tail.split_off(2);
            match Utf8Bytes::from_vec(reason_bytes) {
                Ok(reason) => Ok(Some(CloseFrame { code, reason })),
                Err(e) => Err(e),
            }
        }
    }

    /// Create a new data frame.
    pub fn new_data(data: Vec<u8>, opcode: OpCode, fin: bool) -> (r: Frame)
        requires
            opcode matches OpCode::Data(_),
        ensures
            r.header.fin == fin,
            r.header.rsv1 == false,
            r.header.rsv2 == false,
            r.header.rsv3 == false,
            r.header.opcode == opcode,
            r.header.mask is None,
            r.payload == data,
    {
        Frame {
            header: FrameHeader {
                fin,
                rsv1: false,
                rsv2: false,
                rsv3: false,
                opcode,
                mask: None,
            },
            payload: data,
        }
    }

    /// Create a new ping control frame.
    pub fn new_ping(data: Vec<u8>) -> (r: Frame)
        ensures
            r.header.fin == true,
            r.header.rsv1 == false,
            r.header.rsv2 == false,
            r.header.rsv3 == false,
            r.header.opcode == OpCode::Control(Control::Ping),
            r.header.mask is None,
            r.payload == data,
    {
        Frame {
            header: FrameHeader {
                fin: true,
                rsv1: false,
                rsv2: false,
                rsv3: false,
                opcode: OpCode::Control(Control::Ping),
                mask: None,
            },
            payload: data,
        }
    }

    /// Create a new pong control frame.
    pub fn new_pong(data: Vec<u8>) -> (r: Frame)
        ensures
            r.header.fin == true,
            r.header.rsv1 == false,
            r.header.rsv2 == false,
            r.header.rsv3 == false,
            r.header.opcode == OpCode::Control(Control::Pong),
            r.header.mask is None,
            r.payload == data,
    {
        Frame {
            header: FrameHeader {
                fin: true,
                rsv1: false,
                rsv2: false,
                rsv3: false,
                opcode: OpCode::Control(Control::Pong),
                mask: None,
            },
            payload: data,
        }
    }

    /// Create a new close control frame.
    pub fn new_close(msg: Option<CloseFrame>) -> (r: Frame)
        ensures
            r.header.fin == true,
            r.header.rsv1 == false,
            r.header.rsv2 == false,
            r.header.rsv3 == false,
            r.header.opcode == OpCode::Control(Control::Close),
            r.header.mask is None,
            r.payload@ == spec_close_payload(msg),
    {
        let payload: Vec<u8> = match msg {
            Some(cf) => {
                let code = cf.code.to_u16();
                let mut p: Vec<u8> = Vec::new();
                p.push(#[verifier::truncate] ((code >> 8) as u8));
                p.push(#[verifier::truncate] (code as u8));
                let reason = cf.reason.into_vec();
                p.extend_from_slice(reason.as_slice());
                assert(p@ =~= spec_close_payload(Some(cf)));
                p
            },
            None => Vec::new(),
        };
        assert(payload@ =~= spec_close_payload(msg));
        Frame {
            header: FrameHeader {
                fin: true,
                rsv1: false,
                rsv2: false,
                rsv3: false,
                opcode: OpCode::Control(Control::Close),
                mask: None,
            },
            payload,
        }
    }

    /// Emit the frame into a byte buffer, applying the mask if one is set.
    pub fn into_buf(self, buf: &mut Vec<u8>)
        ensures
            final(buf)@ == old(buf)@ + spec_frame_bytes(self),
    {
        let length = self.payload.len();
        self.header.format(length as u64, buf);
        match self.header.mask {
            Some(k) => {
                let mut p = self.payload;
                apply_mask(&mut p, k);
                buf.extend_from_slice(p.as_slice());
            },
            None => {
                buf.extend_from_slice(self.payload.as_slice());
            },
        }
        assert(final(buf)@ =~= old(buf)@ + spec_frame_bytes(self));
    }

    /// Write the frame out to a buffer.
    pub fn format_to_buf(self, output: &mut Vec<u8>)
        ensures
            final(output)@ == old(output)@ + spec_frame_bytes(self),
    {
        self.into_buf(output)
    }
}

} // verus!
