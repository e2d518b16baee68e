//! The frame codec: accumulates incoming bytes until a complete frame can
//! be extracted, and buffers outgoing frames up to a hard cap.
use vstd::prelude::*;
use crate::buffer::ByteCursor;
use crate::error::{CapacityError, Error, ProtocolError};
use crate::frame::{spec_frame_bytes, Frame};
use crate::header::{spec_parse_header, FrameHeader, HeaderParse};
use crate::mask::{apply_mask, spec_masked};

verus! {

/// A codec for WebSocket frames over byte buffers. The driver of the
/// connection appends what it read from the stream and drains what is to
/// be written to it.
#[derive(Debug)]
pub struct FrameCodec {
    /// Bytes received from the stream and not yet turned into frames.
    pub in_buffer: ByteCursor,
    /// Bytes to be written to the stream, not yet taken by the driver.
    pub out_buffer: Vec<u8>,
    /// Hard capacity limit for `out_buffer`.
    pub max_out_buffer_len: usize,
    /// Target fill of `out_buffer` before `write` asks for a drain.
    pub out_buffer_write_len: usize,
    /// Header and announced payload size of the frame being received.
    pub header: Option<(FrameHeader, u64)>,
}

impl FrameCodec {
    /// The codec is well-formed.
    pub open spec fn wf(&self) -> bool {
        self.in_buffer.wf()
    }

    /// The bytes received and not yet consumed.
    pub open spec fn unread(&self) -> Seq<u8> {
        self.in_buffer.rest()
    }

    /// Create a new frame codec.
    pub fn new() -> (r: FrameCodec)
        ensures
            r.wf(),
            r.unread() == Seq::<u8>::empty(),
            r.out_buffer@ == Seq::<u8>::empty(),
            r.header is None,
            r.max_out_buffer_len == usize::MAX,
            r.out_buffer_write_len == 0,
    {
        let r = FrameCodec {
            in_buffer: ByteCursor::new(Vec::new()),
            out_buffer: Vec::new(),
            max_out_buffer_len: usize::MAX,
            out_buffer_write_len: 0,
            header: None,
        };
        assert(r.unread() =~= Seq::<u8>::empty());
        r
    }

    /// Create a new frame codec holding bytes that were already read from
    /// the stream before the codec took over.
    pub fn from_partially_read(part: Vec<u8>) -> (r: FrameCodec)
        ensures
            r.wf(),
            r.unread() == part@,
            r.out_buffer@ == Seq::<u8>::empty(),
            r.header is None,
            r.max_out_buffer_len == usize::MAX,
            r.out_buffer_write_len == 0,
    {
        let r = FrameCodec {
            in_buffer: ByteCursor::new(part),
            out_buffer: Vec::new(),
            max_out_buffer_len: usize::MAX,
            out_buffer_write_len: 0,
            header: None,
        };
        assert(r.unread() =~= part@);
        r
    }

    /// Sets the hard capacity limit of the out buffer.
    pub fn set_max_out_buffer_len(&mut self, size: usize)
        ensures
            *final(self) == (FrameCodec { max_out_buffer_len: size, ..*old(self) }),
    {
        self.max_out_buffer_len = size;
    }

    /// Sets the out-buffer fill to reach before `write` asks for a drain.
    pub fn set_out_buffer_write_len(&mut self, size: usize)
        ensures
            *final(self) == (FrameCodec { out_buffer_write_len: size, ..*old(self) }),
    {
        self.out_buffer_write_len = size;
    }

    /// Store bytes that the driver read from the stream.
    pub fn feed(&mut self, data: &Vec<u8>)
        requires
            old(self).wf(),
        ensures
            final(self).wf(),
            final(self).unread() == old(self).unread() + data@,
            final(self).header == old(self).header,
            final(self).out_buffer == old(self).out_buffer,
            final(self).max_out_buffer_len == old(self).max_out_buffer_len,
            final(self).out_buffer_write_len == old(self).out_buffer_write_len,
    {
        self.in_buffer.compact();
        self.in_buffer.extend(data);
    }

    /// The buffered outgoing bytes, handed to the driver for writing.
    /// The codec considers them written once taken.
    pub fn take_output(&mut self) -> (r: Vec<u8>)
        ensures
            r == old(self).out_buffer,
            *final(self) == (FrameCodec { out_buffer: final(self).out_buffer, ..*old(self) }),
            final(self).out_buffer@ == Seq::<u8>::empty(),
    {
        let mut out: Vec<u8> = Vec::new();
        core::mem::swap(&mut out, &mut self.out_buffer);
        assert(final(self).out_buffer@ =~= Seq::<u8>::empty());
        out
    }

    /// Writes a frame into the out buffer, unless its bytes would push the
    /// buffer past the hard cap; then nothing is stored at all.
    /// Returns whether the buffer has passed its target fill, so that the
    /// caller knows to drain it.
    pub fn write(&mut self, frame: Frame) -> (r: Result<bool, Error>)
        requires
            old(self).wf(),
        ensures
            final(self).wf(),
            final(self).in_buffer == old(self).in_buffer,
            final(self).unread() == old(self).unread(),
            final(self).header == old(self).header,
            final(self).max_out_buffer_len == old(self).max_out_buffer_len,
            final(self).out_buffer_write_len == old(self).out_buffer_write_len,
            match r {
                Ok(drain) => spec_frame_bytes(frame).len() + old(self).out_buffer@.len() <= old(self).max_out_buffer_len && final(self).out_buffer@ == old(self).out_buffer@
                    + spec_frame_bytes(frame) && drain == (final(self).out_buffer@.len() > final(self).out_buffer_write_len),
                Err(e) => e == Error::WriteBufferFull && spec_frame_bytes(frame).len() + old(self).out_buffer@.len() > old(self).max_out_buffer_len && final(self).out_buffer == old(self).out_buffer,
            },
    {
        let hl = frame.header.len(frame.payload.len() as u64);
        let pl = frame.payload.len();
        let ol = self.out_buffer.len();
        proof {
            match frame.header.mask {
                Some(k) => {
                    assert(spec_masked(frame.payload@, k.bytes()).len() == frame.payload@.len());
                },
                None => {},
            }
            assert(spec_frame_bytes(frame).len() == hl + pl);
        }
        if ol > self.max_out_buffer_len || hl > self.max_out_buffer_len - ol || pl
            > self.max_out_buffer_len - ol - hl {
            return Err(Error::WriteBufferFull);
        }
        frame.into_buf(&mut self.out_buffer);
        Ok(self.out_buffer.len() > self.out_buffer_write_len)
    }

    /// Try to extract one complete frame from the received bytes.
    ///
    /// `Ok(None)` means the driver must feed more bytes. When `unmask` is
    /// set (server role), an arriving mask is consumed and applied to the
    /// payload, and an unmasked frame is refused unless `accept_unmasked`
    /// allows it. A frame whose announced payload length exceeds `max`
    /// is refused outright.
    pub fn read(&mut self, max: Option<usize>, unmask: bool, accept_unmasked: bool) -> (r: Result<
        Option<Frame>,
        Error,
    >)
        requires
            old(self).wf(),
        ensures
            final(self).wf(),
            final(self).out_buffer == old(self).out_buffer,
            final(self).max_out_buffer_len == old(self).max_out_buffer_len,
            final(self).out_buffer_write_len == old(self).out_buffer_write_len,
            ({
                let shrink = final(self).unread().len() < old(self).unread().len();
                match r {
                    Ok(Some(_)) => match old(self).header {
                        Some((h0, l0)) => l0 >= 1 ==> shrink,
                        None => shrink,
                    },
                    _ => true,
                }
            }),
            ({
                let pre_ok = match old(self).header {
                    Some((h0, l0)) => l0 >= 1,
                    None => true,
                };
                let post_ok = match final(self).header {
                    Some((h2, l2)) => l2 >= 1,
                    None => true,
                };
                pre_ok ==> post_ok
            }),
            Self::spec_read_rel(*old(self), *final(self), r, max, unmask, accept_unmasked),
    {
        if self.header.is_none() {
            let parsed = FrameHeader::parse(&mut self.in_buffer);
            match parsed {
                Err(e) => {
                    return Err(e);
                },
                Ok(None) => {
                    return Ok(None);
                },
                Ok(Some((h, len))) => {
                    match max {
                        Some(m) => {
                            if len > m as u64 {
                                let size: usize = if len <= usize::MAX as u64 {
                                    len as usize
                                } else {
                                    usize::MAX
                                };
                                return Err(
                                    Error::Capacity(CapacityError::MessageTooLarge { size, max: m }),
                                );
                            }
                        },
                        None => {},
                    }
                    self.header = Some((h, len));
                },
            }
        }
        let (h, len) = match self.header {
            Some(p) => p,
            None => {
                proof {
                    assert(false);
                }
                (FrameHeader::default(), 0u64)
            },
        };
        let ghost rest1 = self.in_buffer.rest();
        proof {
            match old(self).header {
                None => {
                    match spec_parse_header(old(self).unread()) {
                        HeaderParse::Done(h0, l0, c0) => {
                            crate::header::lemma_parse_done_consumed(old(self).unread());
                            assert(h == h0 && len == l0);
                            assert(rest1 == old(self).unread().skip(c0));
                        },
                        _ => {
                            assert(false);
                        },
                    }
                },
                Some(_) => {
                    assert(rest1 == old(self).unread());
                },
            }
        }
        let rem = self.in_buffer.remaining();
        if len <= rem as u64 {
            let mut payload = self.in_buffer.read_bytes(len as usize);
            assert(payload@ == rest1.take(len as int));
            self.in_buffer.compact();
            self.header = None;
            assert(self.unread() == rest1.skip(len as int));
            let mut header = h;
            if unmask {
                match header.mask {
                    Some(k) => {
                        header.mask = None;
                        apply_mask(&mut payload, k);
                        assert(payload@ == spec_masked(rest1.take(len as int), k.bytes()));
                    },
                    None => {
                        if !accept_unmasked {
                            return Err(Error::Protocol(ProtocolError::UnmaskedFrameFromClient));
                        }
                    },
                }
            }
            let result = Ok(Some(Frame::new(header, payload)));
            result
        } else {
            assert(self.header == Some((h, len)));
            assert(self.unread() == rest1);
            Ok(None)
        }
    }

    /// What one read attempt does to the codec: how the outcome and the
    /// state after relate to the state before.
    pub open spec fn spec_read_rel(
        pre: FrameCodec,
        post: FrameCodec,
        r: Result<Option<Frame>, Error>,
        max: Option<usize>,
        unmask: bool,
        accept_unmasked: bool,
    ) -> bool {
        match pre.header {
            None => match spec_parse_header(pre.unread()) {
                HeaderParse::Incomplete => r matches Ok(o) && o is None && post.header is None
                    && post.unread() == pre.unread(),
                HeaderParse::BadOpcode(n) => r matches Err(e) && e
                    == crate::header::spec_bad_opcode_error(n),
                HeaderParse::Done(h, len, consumed) => Self::spec_read_after_header(
                    post,
                    r,
                    h,
                    len,
                    pre.unread().skip(consumed),
                    max,
                    unmask,
                    accept_unmasked,
                ),
            },
            Some((h, len)) => Self::spec_read_payload(
                post,
                r,
                h,
                len,
                pre.unread(),
                unmask,
                accept_unmasked,
            ),
        }
    }

    /// What `read` does once a header has been parsed and checked against
    /// the frame size cap.
    pub open spec fn spec_read_after_header(
        fin_state: FrameCodec,
        r: Result<Option<Frame>, Error>,
        h: FrameHeader,
        len: u64,
        rest: Seq<u8>,
        max: Option<usize>,
        unmask: bool,
        accept_unmasked: bool,
    ) -> bool {
        if (match max {
            Some(m) => len > m as u64,
            None => false,
        }) {
            r matches Err(e) && e matches Error::Capacity(c) && c matches
                CapacityError::MessageTooLarge { size, max: m } && m == max.unwrap() && (len
                <= usize::MAX ==> size == len)
        } else {
            Self::spec_read_payload(fin_state, r, h, len, rest, unmask, accept_unmasked)
        }
    }

    /// What `read` does while waiting for, or extracting, a payload.
    pub open spec fn spec_read_payload(
        fin_state: FrameCodec,
        r: Result<Option<Frame>, Error>,
        h: FrameHeader,
        len: u64,
        rest: Seq<u8>,
        unmask: bool,
        accept_unmasked: bool,
    ) -> bool {
        if len > rest.len() {
            r matches Ok(o) && o is None && fin_state.header == Some((h, len)) && fin_state.unread()
                == rest
        } else {
            let raw = rest.take(len as int);
            if unmask && h.mask is None && !accept_unmasked {
                r matches Err(e) && e == Error::Protocol(ProtocolError::UnmaskedFrameFromClient)
            } else {
                r matches Ok(o) && o matches Some(f) && f.header == (if unmask && h.mask is Some {
                    FrameHeader { mask: None, ..h }
                } else {
                    h
                }) && f.payload@ == (if unmask && h.mask is Some {
                    spec_masked(raw, h.mask.unwrap().bytes())
                } else {
                    raw
                }) && fin_state.header is None && fin_state.unread() == rest.skip(len as int)
            }
        }
    }
}

} // verus!
