//! The message-level session state machine: frame dispatch, fragment
//! reassembly, ping/pong automation, the close handshake, and write
//! buffering with backpressure.
use vstd::prelude::*;
use crate::codec::FrameCodec;
use crate::config::WebSocketConfig;
use crate::error::{CapacityError, Error, FragmentType, IoErrorKind, ProtocolError};
use crate::frame::{spec_close_payload, spec_frame_bytes, CloseFrame, Frame};
use crate::header::{spec_format_header, spec_header_len, FrameHeader};
use crate::mask::{spec_masked, MaskKey};
use crate::message::{IncompleteMessage, IncompleteMessageType, Message};
use crate::opcode::{CloseCode, Control, Data, OpCode};
use crate::utf8::{lemma_ascii_is_valid_utf8, Utf8Bytes};

verus! {

/// The role a session plays.
#[derive(Debug, Clone, Copy, PartialEq, Eq, Structural)]
pub enum OperationMode {
    /// Client mode: outgoing frames are masked, incoming must not be.
    Client,
    /// Server mode: incoming frames are masked, outgoing must not be.
    Server,
}

/// The session state.
#[derive(Debug, Clone, Copy, PartialEq, Eq, Structural)]
pub enum WebSocketState {
    /// The connection is active.
    Active,
    /// We sent a close frame and await the peer's echo.
    ClosedByUs,
    /// The peer sent a close frame and our echo is queued.
    ClosedByPeer,
    /// The peer replied to our close frame; the close is bidirectional.
    CloseAcknowledged,
    /// The connection does not exist any more; every operation fails.
    Terminated,
}

impl WebSocketState {
    /// Whether normal messages may still be processed.
    pub open spec fn spec_is_active(self) -> bool {
        self is Active
    }

    /// Whether incoming data should still be processed. After we send a
    /// close frame the peer may still deliver data it sent before.
    pub open spec fn spec_can_read(self) -> bool {
        self is Active || self is ClosedByUs
    }

    /// Whether normal messages may still be processed.
    pub fn is_active(self) -> (r: bool)
        ensures
            r == self.spec_is_active(),
    {
        matches!(self, WebSocketState::Active)
    }

    /// Whether incoming data should still be processed.
    pub fn can_read(self) -> (r: bool)
        ensures
            r == self.spec_can_read(),
    {
        matches!(self, WebSocketState::Active | WebSocketState::ClosedByUs)
    }

    /// Fail with `AlreadyClosed` once the session is terminated.
    pub fn check_if_terminated(self) -> (r: Result<(), Error>)
        ensures
            match r {
                Ok(()) => !(self is Terminated),
                Err(e) => self is Terminated && e == Error::AlreadyClosed,
            },
    {
        match self {
            WebSocketState::Terminated => Err(Error::AlreadyClosed),
            _ => Ok(()),
        }
    }
}

/// Fail with `MessageTooLarge` when a size exceeds the configured limit.
pub fn check_max_size(size: usize, max: Option<usize>) -> (r: Result<(), Error>)
    ensures
        match r {
            Ok(()) => (max matches Some(m) ==> size <= m),
            Err(e) => max matches Some(m) && size > m && e == Error::Capacity(
                CapacityError::MessageTooLarge { size, max: m },
            ),
        },
{
    match max {
        Some(m) => {
            if size > m {
                Err(Error::Capacity(CapacityError::MessageTooLarge { size, max: m }))
            } else {
                Ok(())
            }
        },
        None => Ok(()),
    }
}

/// Translate a connection-reset transport error into `ConnectionClosed`
/// once either side has closed: the peer was allowed to tear down.
pub fn check_connection_reset(e: Error, state: WebSocketState) -> (r: Error)
    ensures
        r == (if e == Error::Io(IoErrorKind::ConnectionReset) && !state.spec_can_read() {
            Error::ConnectionClosed
        } else {
            e
        }),
{
    if matches!(e, Error::Io(IoErrorKind::ConnectionReset)) && !state.can_read() {
        Error::ConnectionClosed
    } else {
        e
    }
}

/// The incoming message size limit as a number.
pub open spec fn spec_msg_limit(c: WebSocketConfig) -> int {
    match c.max_message_size {
        Some(m) => m as int,
        None => usize::MAX as int,
    }
}

/// A frame header with clear reserved bits.
pub open spec fn spec_plain_header(fin: bool, opcode: OpCode, mask: Option<MaskKey>) -> FrameHeader {
    FrameHeader { fin, rsv1: false, rsv2: false, rsv3: false, opcode, mask }
}

/// How many bytes a frame of the session's own making takes on the wire.
pub open spec fn spec_emit_len(mode: OperationMode, payload_len: int) -> int {
    spec_header_len(mode is Client, payload_len as u64) + payload_len
}

/// The out buffer grew by exactly one frame with the given shape, masked
/// with some fresh key in client mode and bare in server mode.
pub open spec fn spec_emission(
    mode: OperationMode,
    fin: bool,
    opcode: OpCode,
    payload: Seq<u8>,
    pre_out: Seq<u8>,
    post_out: Seq<u8>,
) -> bool {
    match mode {
        OperationMode::Server => post_out == pre_out + spec_format_header(
            spec_plain_header(fin, opcode, None),
            payload.len() as u64,
        ) + payload,
        OperationMode::Client => exists|k: MaskKey|
            post_out == pre_out + spec_format_header(
                spec_plain_header(fin, opcode, Some(k)),
                payload.len() as u64,
            ) + spec_masked(payload, k.bytes()),
    }
}

/// What a session emits, the peer recovers: the bytes one emission
/// appends to the out buffer parse back to a single frame with the
/// emitted shape. A server's frame is bare and carries the payload as
/// it is; a client's frame is masked with some fresh key, and applying
/// that key to the received payload restores the original bytes.
pub proof fn lemma_emission_round_trip(
    mode: OperationMode,
    fin: bool,
    opcode: OpCode,
    payload: Seq<u8>,
    pre_out: Seq<u8>,
    post_out: Seq<u8>,
)
    requires
        spec_emission(mode, fin, opcode, payload, pre_out, post_out),
        opcode.is_wire_form(),
        !opcode.spec_is_reserved(),
        payload.len() <= u64::MAX,
    ensures
        ({
            let b = post_out.skip(pre_out.len() as int);
            match mode {
                OperationMode::Server => {
                    let h = spec_plain_header(fin, opcode, None);
                    let hl = spec_format_header(h, payload.len() as u64).len() as int;
                    &&& crate::header::spec_parse_header(b)
                        == crate::header::HeaderParse::Done(h, payload.len() as u64, hl)
                    &&& b.skip(hl) == payload
                },
                OperationMode::Client => exists|k: MaskKey|
                    #![trigger spec_plain_header(fin, opcode, Some(k))]
                    {
                        let h = spec_plain_header(fin, opcode, Some(k));
                        let hl = spec_format_header(h, payload.len() as u64).len() as int;
                        &&& crate::header::spec_parse_header(b)
                            == crate::header::HeaderParse::Done(h, payload.len() as u64, hl)
                        &&& spec_masked(b.skip(hl), k.bytes()) == payload
                    },
            }
        }),
{
    let b = post_out.skip(pre_out.len() as int);
    match mode {
        OperationMode::Server => {
            let h = spec_plain_header(fin, opcode, None);
            let wire = spec_format_header(h, payload.len() as u64) + payload;
            assert(post_out == pre_out + spec_format_header(h, payload.len() as u64) + payload);
            assert(b =~= wire);
            crate::header::lemma_header_round_trip(h, payload.len() as u64, payload);
            assert(wire.skip(spec_format_header(h, payload.len() as u64).len() as int)
                =~= payload);
        },
        OperationMode::Client => {
            let k = choose|k: MaskKey|
                post_out == pre_out + spec_format_header(
                    spec_plain_header(fin, opcode, Some(k)),
                    payload.len() as u64,
                ) + spec_masked(payload, k.bytes());
            let h = spec_plain_header(fin, opcode, Some(k));
            let wire = spec_format_header(h, payload.len() as u64) + spec_masked(
                payload,
                k.bytes(),
            );
            assert(b =~= wire);
            crate::frame::lemma_masked_wire_round_trip(h, payload, k);
        },
    }
}

/// How the auxiliary frame slot drains into the out buffer: the queued
/// frame is emitted if it fits under the cap, else it stays queued.
pub open spec fn spec_drain(
    mode: OperationMode,
    cap: int,
    pre_add: Option<Frame>,
    pre_out: Seq<u8>,
    post_add: Option<Frame>,
    post_out: Seq<u8>,
) -> bool {
    match pre_add {
        None => post_add is None && post_out == pre_out,
        Some(a) => if spec_emit_len(mode, a.payload@.len() as int) + pre_out.len() <= cap {
            post_add is None && spec_emission(
                mode,
                a.header.fin,
                a.header.opcode,
                a.payload@,
                pre_out,
                post_out,
            )
        } else {
            post_add == pre_add && post_out == pre_out
        },
    }
}

/// The reason text put into a close echo when the peer's close code is
/// not allowed on the wire.
pub open spec fn spec_protocol_violation_reason() -> Seq<u8> {
    seq![80u8, 114, 111, 116, 111, 99, 111, 108, 32, 118, 105, 111, 108, 97, 116, 105, 111, 110]
}

/// The session with its codec replaced.
pub open spec fn spec_with_codec(s: WebSocketContext, c: FrameCodec) -> WebSocketContext {
    WebSocketContext { frame: c, ..s }
}

/// One codec read attempt made with the session's own parameters.
pub open spec fn spec_codec_step(
    s: WebSocketContext,
    post_codec: FrameCodec,
    rc: Result<Option<Frame>, Error>,
) -> bool {
    FrameCodec::spec_read_rel(
        s.frame,
        post_codec,
        rc,
        s.config.max_frame_size,
        s.mode is Server,
        s.config.accept_unmasked_frames,
    )
}

/// The error a read reports when the stream ends: the closure when the
/// close handshake had completed, a reset otherwise.
pub open spec fn spec_eof_error(state: WebSocketState) -> Error {
    match state {
        WebSocketState::ClosedByPeer | WebSocketState::CloseAcknowledged => Error::ConnectionClosed,
        _ => Error::Protocol(ProtocolError::ResetWithoutClosing),
    }
}

/// How the auxiliary frame slot takes a new frame: only an empty slot or
/// a queued pong gives way; a queued close is never displaced.
pub open spec fn spec_set_additional_rel(
    pre_add: Option<Frame>,
    opcode: OpCode,
    payload: Seq<u8>,
    post_add: Option<Frame>,
) -> bool {
    let empty_or_pong = match pre_add {
        None => true,
        Some(f) => f.header.opcode == OpCode::Control(Control::Pong),
    };
    if empty_or_pong {
        post_add matches Some(f) && f.header == spec_plain_header(true, opcode, None) && f.payload@
            == payload
    } else {
        post_add == pre_add
    }
}

/// The out buffer grew by exactly the bytes of the given frame, with a
/// fresh mask put into its header first in client mode.
pub open spec fn spec_frame_emission(
    mode: OperationMode,
    f: Frame,
    pre_out: Seq<u8>,
    post_out: Seq<u8>,
) -> bool {
    match mode {
        OperationMode::Server => post_out == pre_out + spec_frame_bytes(f),
        OperationMode::Client => exists|k: MaskKey|
            post_out == pre_out + spec_frame_bytes(
                Frame { header: FrameHeader { mask: Some(k), ..f.header }, payload: f.payload },
            ),
    }
}

/// How many bytes the given frame takes on the wire, the mask the
/// session will put on it included.
pub open spec fn spec_frame_emit_len(mode: OperationMode, f: Frame) -> int {
    spec_header_len(mode is Client || f.header.mask is Some, f.payload@.len() as u64)
        + f.payload@.len()
}

/// A context for managing a WebSocket session over byte buffers: the
/// driver of the connection feeds bytes read from the stream and writes
/// out the bytes the session emits.
#[derive(Debug)]
pub struct WebSocketContext {
    /// Server or client?
    pub mode: OperationMode,
    /// Encoder and decoder of frames.
    pub frame: FrameCodec,
    /// The state of processing.
    pub state: WebSocketState,
    /// An incomplete message being reassembled, at most one at a time.
    pub incomplete: Option<IncompleteMessage>,
    /// One frame queued besides regular messages: a pong or a close echo.
    pub additional_send: Option<Frame>,
    /// Whether the driver reported the end of the incoming stream.
    pub eof: bool,
    /// The configuration of the session.
    pub config: WebSocketConfig,
}

impl WebSocketContext {
    /// The session invariant.
    pub open spec fn wf(&self) -> bool {
        &&& self.frame.wf()
        &&& self.config.is_valid()
        &&& (self.incomplete matches Some(m) ==> m.wf())
        &&& (self.additional_send matches Some(f) ==> f.header.fin && !f.header.rsv1
            && !f.header.rsv2 && !f.header.rsv3 && f.header.mask is None)
        &&& (self.state is Active ==> (self.additional_send matches Some(f) ==> f.header.opcode
            == OpCode::Control(Control::Pong)))
        &&& (self.frame.header matches Some((h, l)) ==> l >= 1)
        &&& self.frame.max_out_buffer_len == self.config.max_write_buffer_size
        &&& self.frame.out_buffer_write_len == self.config.write_buffer_size
    }

    /// The bytes waiting to be written to the stream.
    pub open spec fn out_bytes(&self) -> Seq<u8> {
        self.frame.out_buffer@
    }

    /// Create a context for a session whose handshake is done.
    pub fn new(mode: OperationMode, config: Option<WebSocketConfig>) -> (r: WebSocketContext)
        requires
            config matches Some(c) ==> c.is_valid(),
        ensures
            r.wf(),
            r.mode == mode,
            r.state == WebSocketState::Active,
            r.incomplete is None,
            r.additional_send is None,
            r.eof == false,
            r.out_bytes() == Seq::<u8>::empty(),
            r.frame.unread() == Seq::<u8>::empty(),
            r.frame.header is None,
            config matches Some(c) ==> r.config == c,
    {
        Self::internal_new(FrameCodec::new(), mode, config)
    }

    /// Create a context that also holds bytes already read from the
    /// stream before the session took over.
    pub fn from_partially_read(
        part: Vec<u8>,
        mode: OperationMode,
        config: Option<WebSocketConfig>,
    ) -> (r: WebSocketContext)
        requires
            config matches Some(c) ==> c.is_valid(),
        ensures
            r.wf(),
            r.mode == mode,
            r.state == WebSocketState::Active,
            r.incomplete is None,
            r.additional_send is None,
            r.eof == false,
            r.out_bytes() == Seq::<u8>::empty(),
            r.frame.unread() == part@,
            r.frame.header is None,
            config matches Some(c) ==> r.config == c,
    {
        Self::internal_new(FrameCodec::from_partially_read(part), mode, config)
    }

    /// Bind a codec to a fresh session with the given configuration.
    fn internal_new(frame: FrameCodec, mode: OperationMode, config: Option<WebSocketConfig>) -> (r:
        WebSocketContext)
        requires
            frame.wf(),
            frame.header is None,
            config matches Some(c) ==> c.is_valid(),
        ensures
            r.wf(),
            r.mode == mode,
            r.state == WebSocketState::Active,
            r.incomplete is None,
            r.additional_send is None,
            r.eof == false,
            r.out_bytes() == frame.out_buffer@,
            r.frame.unread() == frame.unread(),
            r.frame.header == frame.header,
            config matches Some(c) ==> r.config == c,
    {
        let configuration = match config {
            Some(c) => c,
            None => WebSocketConfig::default(),
        };
        let mut codec = frame;
        codec.set_max_out_buffer_len(configuration.max_write_buffer_size);
        codec.set_out_buffer_write_len(configuration.write_buffer_size);
        WebSocketContext {
            mode,
            frame: codec,
            state: WebSocketState::Active,
            incomplete: None,
            additional_send: None,
            eof: false,
            config: configuration,
        }
    }

    /// Change the configuration.
    pub fn set_config(&mut self, config: WebSocketConfig)
        requires
            old(self).wf(),
            config.is_valid(),
        ensures
            final(self).wf(),
            final(self).config == config,
            final(self).mode == old(self).mode,
            final(self).state == old(self).state,
            final(self).incomplete == old(self).incomplete,
            final(self).additional_send == old(self).additional_send,
            final(self).eof == old(self).eof,
            final(self).out_bytes() == old(self).out_bytes(),
            final(self).frame.unread() == old(self).frame.unread(),
            final(self).frame.header == old(self).frame.header,
    {
        self.config = config;
        self.frame.set_max_out_buffer_len(config.max_write_buffer_size);
        self.frame.set_out_buffer_write_len(config.write_buffer_size);
    }

    /// Read the configuration.
    pub fn get_config(&self) -> (r: &WebSocketConfig)
        ensures
            r == &self.config,
    {
        &self.config
    }

    /// Whether it is still possible to read messages.
    pub fn can_read(&self) -> (r: bool)
        ensures
            r == self.state.spec_can_read(),
    {
        self.state.can_read()
    }

    /// Whether it is still possible to write messages.
    pub fn can_write(&self) -> (r: bool)
        ensures
            r == self.state.spec_is_active(),
    {
        self.state.is_active()
    }

    /// Hand the session bytes that the driver read from the stream.
    pub fn feed(&mut self, data: &Vec<u8>)
        requires
            old(self).wf(),
        ensures
            final(self).wf(),
            final(self).frame.unread() == old(self).frame.unread() + data@,
            final(self).out_bytes() == old(self).out_bytes(),
            final(self).mode == old(self).mode,
            final(self).state == old(self).state,
            final(self).config == old(self).config,
            final(self).incomplete == old(self).incomplete,
            final(self).additional_send == old(self).additional_send,
            final(self).eof == old(self).eof,
            final(self).frame.header == old(self).frame.header,
    {
        self.frame.feed(data);
    }

    /// Record that the incoming stream has ended.
    pub fn set_eof(&mut self)
        requires
            old(self).wf(),
        ensures
            final(self).wf(),
            *final(self) == (WebSocketContext { eof: true, ..*old(self) }),
    {
        self.eof = true;
    }

    /// Everything but the session state, the reassembly state and the
    /// auxiliary slot is untouched.
    pub open spec fn spec_same_io(pre: Self, post: Self) -> bool {
        post.mode == pre.mode && post.config == pre.config && post.eof == pre.eof && post.frame
            == pre.frame
    }

    /// What receiving a close frame with the given command does: the
    /// close-state table of the session.
    pub open spec fn spec_try_close(
        pre: Self,
        close: Option<CloseFrame>,
        post: Self,
        r: Option<Option<CloseFrame>>,
    ) -> bool {
        &&& Self::spec_same_io(pre, post)
        &&& post.incomplete == pre.incomplete
        &&& match pre.state {
            WebSocketState::Active => {
                &&& post.state == WebSocketState::ClosedByPeer
                &&& r matches Some(c)
                &&& (match close {
                    None => r == Some(None::<CloseFrame>) && spec_set_additional_rel(
                        pre.additional_send,
                        OpCode::Control(Control::Close),
                        spec_close_payload(None),
                        post.additional_send,
                    ),
                    Some(cf) => r matches Some(c) && c matches Some(cf2) && (if cf.code.spec_allowed() {
                        cf2 == cf
                    } else {
                        cf2.code == CloseCode::Protocol && cf2.reason@
                            == spec_protocol_violation_reason()
                    }) && spec_set_additional_rel(
                        pre.additional_send,
                        OpCode::Control(Control::Close),
                        spec_close_payload(Some(cf2)),
                        post.additional_send,
                    ),
                })
            },
            WebSocketState::ClosedByUs => {
                &&& post.state == WebSocketState::CloseAcknowledged
                &&& r == Some(close)
                &&& post.additional_send == pre.additional_send
            },
            WebSocketState::ClosedByPeer | WebSocketState::CloseAcknowledged => {
                &&& post.state == pre.state
                &&& r is None
                &&& post.additional_send == pre.additional_send
            },
            WebSocketState::Terminated => false,
        }
    }

    /// What the session does with one frame handed up by the codec: the
    /// dispatch table of the protocol.
    pub open spec fn spec_handle_frame(
        pre: Self,
        f: Frame,
        post: Self,
        r: Result<Option<Message>, Error>,
    ) -> bool {
        let h = f.header;
        let p = f.payload@;
        let limit = spec_msg_limit(pre.config);
        if !pre.state.spec_can_read() {
            r == Err::<Option<Message>, Error>(Error::Protocol(ProtocolError::ReceiveAfterClose))
                && post == pre
        } else if h.rsv1 || h.rsv2 || h.rsv3 {
            r == Err::<Option<Message>, Error>(Error::Protocol(ProtocolError::NonZeroReservedBits))
                && post == pre
        } else if pre.mode is Client && h.mask is Some {
            r == Err::<Option<Message>, Error>(Error::Protocol(ProtocolError::MaskedFrameFromServer))
                && post == pre
        } else {
            match h.opcode {
                OpCode::Control(ctrl) => if !h.fin {
                    r == Err::<Option<Message>, Error>(
                        Error::Protocol(ProtocolError::FragmentedControlFrame),
                    ) && post == pre
                } else if p.len() > 125 {
                    r == Err::<Option<Message>, Error>(
                        Error::Protocol(ProtocolError::ControlFrameTooBig),
                    ) && post == pre
                } else {
                    match ctrl {
                        Control::Close => if p.len() == 1 {
                            r == Err::<Option<Message>, Error>(
                                Error::Protocol(ProtocolError::InvalidCloseFrame),
                            ) && post == pre
                        } else if p.len() >= 2 && !crate::utf8::spec_is_valid_utf8(p.skip(2)) {
                            r == Err::<Option<Message>, Error>(Error::Utf8) && post == pre
                        } else {
                            exists|pc: Option<CloseFrame>, c: Option<Option<CloseFrame>>|
                                {
                                    &&& Self::spec_parsed_close_matches(p, pc)
                                    &&& Self::spec_try_close(pre, pc, post, c)
                                    &&& r == Ok::<Option<Message>, Error>(
                                        match c {
                                            Some(cf) => Some(Message::Close(cf)),
                                            None => None,
                                        },
                                    )
                                }
                        },
                        Control::Reserved(n) => r == Err::<Option<Message>, Error>(
                            Error::Protocol(ProtocolError::UnknownControlOpCode(n)),
                        ) && post == pre,
                        Control::Ping => {
                            &&& r matches Ok(o)
                            &&& o matches Some(m)
                            &&& m matches Message::Ping(q) && q@ == p
                            &&& Self::spec_same_io(pre, post)
                            &&& post.state == pre.state
                            &&& post.incomplete == pre.incomplete
                            &&& (if pre.state is Active {
                                spec_set_additional_rel(
                                    pre.additional_send,
                                    OpCode::Control(Control::Pong),
                                    p,
                                    post.additional_send,
                                )
                            } else {
                                post.additional_send == pre.additional_send
                            })
                        },
                        Control::Pong => {
                            &&& r matches Ok(o)
                            &&& o matches Some(m)
                            &&& m matches Message::Pong(q) && q@ == p
                            &&& post == pre
                        },
                    }
                },
                OpCode::Data(d) => match d {
                    Data::Reserved(n) => r == Err::<Option<Message>, Error>(
                        Error::Protocol(ProtocolError::UnknownDataOpCode(n)),
                    ) && post == pre,
                    Data::Continuation => match pre.incomplete {
                        None => r == Err::<Option<Message>, Error>(
                            Error::Protocol(ProtocolError::UnexpectedContinue),
                        ) && post == pre,
                        Some(m) => Self::spec_extend_step(pre, m, p, h.fin, post, r),
                    },
                    Data::Text => match pre.incomplete {
                        Some(_) => r == Err::<Option<Message>, Error>(
                            Error::Protocol(ProtocolError::ExpectedFragment(FragmentType::Text)),
                        ) && post == pre,
                        None => if h.fin {
                            if pre.config.max_message_size matches Some(mx) && p.len() > mx {
                                r == Err::<Option<Message>, Error>(
                                    Error::Capacity(
                                        CapacityError::MessageTooLarge {
                                            size: p.len() as usize,
                                            max: pre.config.max_message_size.unwrap(),
                                        },
                                    ),
                                ) && post == pre
                            } else if !crate::utf8::spec_is_valid_utf8(p) {
                                r == Err::<Option<Message>, Error>(Error::Utf8) && post == pre
                            } else {
                                r matches Ok(o) && o matches Some(m) && m matches Message::Text(u)
                                    && u@ == p && post == pre
                            }
                        } else {
                            Self::spec_start_fragment(pre, IncompleteMessageType::Text, p, post, r)
                        },
                    },
                    Data::Binary => match pre.incomplete {
                        Some(_) => r == Err::<Option<Message>, Error>(
                            Error::Protocol(ProtocolError::ExpectedFragment(FragmentType::Binary)),
                        ) && post == pre,
                        None => if h.fin {
                            if pre.config.max_message_size matches Some(mx) && p.len() > mx {
                                r == Err::<Option<Message>, Error>(
                                    Error::Capacity(
                                        CapacityError::MessageTooLarge {
                                            size: p.len() as usize,
                                            max: pre.config.max_message_size.unwrap(),
                                        },
                                    ),
                                ) && post == pre
                            } else {
                                r matches Ok(o) && o matches Some(m) && m matches Message::Binary(b)
                                    && b@ == p && post == pre
                            }
                        } else {
                            Self::spec_start_fragment(pre, IncompleteMessageType::Binary, p, post, r)
                        },
                    },
                },
            }
        }
    }

    /// The close command announced by a close frame payload that is
    /// neither one byte long nor badly encoded: absent when empty,
    /// else the first two bytes as the code and the rest as the reason.
    pub open spec fn spec_parsed_close_matches(p: Seq<u8>, c: Option<CloseFrame>) -> bool {
        if p.len() == 0 {
            c is None
        } else {
            c matches Some(cf) && cf.code == CloseCode::spec_from_u16(
                ((p[0] as u16) << 8) | (p[1] as u16),
            ) && cf.reason@ == p.skip(2)
        }
    }

    /// What extending the running fragmented message with one more
    /// fragment does.
    pub open spec fn spec_extend_step(
        pre: Self,
        m: IncompleteMessage,
        p: Seq<u8>,
        fin: bool,
        post: Self,
        r: Result<Option<Message>, Error>,
    ) -> bool {
        let limit = spec_msg_limit(pre.config);
        if m.bytes().len() + p.len() > limit {
            r matches Err(e) && e matches Error::Capacity(CapacityError::MessageTooLarge { .. })
                && post == pre
        } else if m.is_text() && (if fin {
            !crate::utf8::spec_is_valid_utf8(m.pending() + p)
        } else {
            !crate::utf8::spec_is_valid_stream(m.pending() + p)
        }) {
            r == Err::<Option<Message>, Error>(Error::Utf8) && Self::spec_same_io(pre, post)
                && post.state == pre.state && post.additional_send == pre.additional_send
        } else if fin {
            &&& r matches Ok(o)
            &&& o matches Some(msg)
            &&& (if m.is_text() {
                msg matches Message::Text(u) && u@ == m.bytes() + p
            } else {
                msg matches Message::Binary(b) && b@ == m.bytes() + p
            })
            &&& Self::spec_same_io(pre, post)
            &&& post.state == pre.state
            &&& post.additional_send == pre.additional_send
            &&& post.incomplete is None
        } else {
            &&& r matches Ok(o) && o is None
            &&& Self::spec_same_io(pre, post)
            &&& post.state == pre.state
            &&& post.additional_send == pre.additional_send
            &&& post.incomplete matches Some(m2) && m2.bytes() == m.bytes() + p && m2.is_text()
                == m.is_text()
        }
    }

    /// What starting a new fragmented message with a first fragment does.
    pub open spec fn spec_start_fragment(
        pre: Self,
        kind: IncompleteMessageType,
        p: Seq<u8>,
        post: Self,
        r: Result<Option<Message>, Error>,
    ) -> bool {
        let limit = spec_msg_limit(pre.config);
        if p.len() > limit {
            r matches Err(e) && e matches Error::Capacity(CapacityError::MessageTooLarge { .. })
                && post == pre
        } else if kind == IncompleteMessageType::Text && !crate::utf8::spec_is_valid_stream(p) {
            r == Err::<Option<Message>, Error>(Error::Utf8) && post == pre
        } else {
            &&& r matches Ok(o) && o is None
            &&& Self::spec_same_io(pre, post)
            &&& post.state == pre.state
            &&& post.additional_send == pre.additional_send
            &&& post.incomplete matches Some(m2) && m2.bytes() == p && m2.is_text() == (kind
                == IncompleteMessageType::Text)
        }
    }

    /// The bytes the session wants written to the stream; the session
    /// considers them written once taken.
    pub fn take_output(&mut self) -> (r: Vec<u8>)
        requires
            old(self).wf(),
        ensures
            final(self).wf(),
            r@ == old(self).out_bytes(),
            final(self).out_bytes() == Seq::<u8>::empty(),
            final(self).mode == old(self).mode,
            final(self).state == old(self).state,
            final(self).config == old(self).config,
            final(self).incomplete == old(self).incomplete,
            final(self).additional_send == old(self).additional_send,
            final(self).eof == old(self).eof,
            final(self).frame.unread() == old(self).frame.unread(),
            final(self).frame.header == old(self).frame.header,
    {
        self.frame.take_output()
    }

    /// The reading half and the static parts of the session are the same.
    pub open spec fn spec_same_reading(pre: Self, post: Self) -> bool {
        &&& post.mode == pre.mode
        &&& post.config == pre.config
        &&& post.eof == pre.eof
        &&& post.incomplete == pre.incomplete
        &&& post.frame.unread() == pre.frame.unread()
        &&& post.frame.header == pre.frame.header
    }

    /// What writing one single data or control frame does when the
    /// session is active: refused whole if the frame cannot fit under
    /// the write-buffer cap, else emitted and followed by a drain of
    /// the auxiliary slot.
    pub open spec fn spec_write_data(
        pre: Self,
        fin: bool,
        opcode: OpCode,
        payload: Seq<u8>,
        post: Self,
        r: Result<(), Error>,
    ) -> bool {
        let cap = pre.config.max_write_buffer_size as int;
        if spec_emit_len(pre.mode, payload.len() as int) + pre.out_bytes().len() > cap {
            r == Err::<(), Error>(Error::WriteBufferFull) && post == pre
        } else {
            &&& r == Ok::<(), Error>(())
            &&& Self::spec_same_reading(pre, post)
            &&& post.state == pre.state
            &&& exists|mid: Seq<u8>|
                spec_emission(pre.mode, fin, opcode, payload, pre.out_bytes(), mid) && spec_drain(
                    pre.mode,
                    cap,
                    pre.additional_send,
                    mid,
                    post.additional_send,
                    post.out_bytes(),
                )
        }
    }

    /// What writing a caller-supplied raw frame does when the session is
    /// active.
    pub open spec fn spec_write_raw(pre: Self, f: Frame, post: Self, r: Result<(), Error>) -> bool {
        let cap = pre.config.max_write_buffer_size as int;
        if spec_frame_emit_len(pre.mode, f) + pre.out_bytes().len() > cap {
            r == Err::<(), Error>(Error::WriteBufferFull) && post == pre
        } else {
            &&& r == Ok::<(), Error>(())
            &&& Self::spec_same_reading(pre, post)
            &&& post.state == pre.state
            &&& exists|mid: Seq<u8>|
                spec_frame_emission(pre.mode, f, pre.out_bytes(), mid) && spec_drain(
                    pre.mode,
                    cap,
                    pre.additional_send,
                    mid,
                    post.additional_send,
                    post.out_bytes(),
                )
        }
    }

    /// What closing does when the session is active: the state moves to
    /// `ClosedByUs`, then a close frame is written.
    pub open spec fn spec_close_active(
        pre: Self,
        code: Option<CloseFrame>,
        post: Self,
        r: Result<(), Error>,
    ) -> bool {
        let cap = pre.config.max_write_buffer_size as int;
        let payload = spec_close_payload(code);
        if spec_emit_len(pre.mode, payload.len() as int) + pre.out_bytes().len() > cap {
            r == Err::<(), Error>(Error::WriteBufferFull) && post == (WebSocketContext {
                state: WebSocketState::ClosedByUs,
                ..pre
            })
        } else {
            &&& r == Ok::<(), Error>(())
            &&& Self::spec_same_reading(pre, post)
            &&& post.state == WebSocketState::ClosedByUs
            &&& exists|mid: Seq<u8>|
                spec_emission(
                    pre.mode,
                    true,
                    OpCode::Control(Control::Close),
                    payload,
                    pre.out_bytes(),
                    mid,
                ) && spec_drain(
                    pre.mode,
                    cap,
                    pre.additional_send,
                    mid,
                    post.additional_send,
                    post.out_bytes(),
                )
        }
    }

    /// What one write does for each kind of message, when the session is
    /// active.
    pub open spec fn spec_write_active(
        pre: Self,
        msg: Message,
        post: Self,
        r: Result<(), Error>,
    ) -> bool {
        match msg {
            Message::Text(u) => Self::spec_write_data(
                pre,
                true,
                OpCode::Data(Data::Text),
                u@,
                post,
                r,
            ),
            Message::Binary(b) => Self::spec_write_data(
                pre,
                true,
                OpCode::Data(Data::Binary),
                b@,
                post,
                r,
            ),
            Message::Ping(p) => Self::spec_write_data(
                pre,
                true,
                OpCode::Control(Control::Ping),
                p@,
                post,
                r,
            ),
            Message::Pong(p) => {
                &&& r == Ok::<(), Error>(())
                &&& Self::spec_same_reading(pre, post)
                &&& post.state == pre.state
                &&& exists|add1: Option<Frame>|
                    spec_set_additional_rel(
                        pre.additional_send,
                        OpCode::Control(Control::Pong),
                        p@,
                        add1,
                    ) && spec_drain(
                        pre.mode,
                        pre.config.max_write_buffer_size as int,
                        add1,
                        pre.out_bytes(),
                        post.additional_send,
                        post.out_bytes(),
                    )
            },
            Message::Close(c) => Self::spec_close_active(pre, c, post, r),
            Message::Frame(f) => Self::spec_write_raw(pre, f, post, r),
        }
    }

    /// Write one frame into the out buffer, putting a fresh mask on it
    /// first in client mode. Nothing is stored when it cannot fit.
    fn buffer_frame(&mut self, frame: Frame) -> (r: Result<bool, Error>)
        requires
            old(self).wf(),
        ensures
            final(self).wf(),
            Self::spec_same_reading(*old(self), *final(self)),
            final(self).state == old(self).state,
            final(self).additional_send == old(self).additional_send,
            match r {
                Ok(_) => spec_frame_emit_len(old(self).mode, frame) + old(self).out_bytes().len()
                    <= old(self).config.max_write_buffer_size && spec_frame_emission(
                    old(self).mode,
                    frame,
                    old(self).out_bytes(),
                    final(self).out_bytes(),
                ),
                Err(e) => e == Error::WriteBufferFull && spec_frame_emit_len(old(self).mode, frame)
                    + old(self).out_bytes().len() > old(self).config.max_write_buffer_size
                    && *final(self) == *old(self),
            },
    {
        let mut f = frame;
        match self.mode {
            OperationMode::Client => {
                f.set_random_mask();
            },
            OperationMode::Server => {},
        }
        let ghost f2 = f;
        proof {
            assert(spec_frame_bytes(f2).len() == spec_frame_emit_len(old(self).mode, frame)) by {
                match f2.header.mask {
                    Some(k) => {
                        assert(crate::mask::spec_masked(f2.payload@, k.bytes()).len()
                            == f2.payload@.len());
                    },
                    None => {},
                }
            }
        }
        match self.frame.write(f) {
            Ok(d) => {
                proof {
                    match old(self).mode {
                        OperationMode::Server => {
                            assert(f2 == frame);
                        },
                        OperationMode::Client => {
                            match f2.header.mask {
                                Some(k) => {
                                    assert(f2 == (Frame {
                                        header: FrameHeader { mask: Some(k), ..frame.header },
                                        payload: frame.payload,
                                    }));
                                    assert(self.out_bytes() == old(self).out_bytes()
                                        + spec_frame_bytes(
                                        Frame {
                                            header: FrameHeader { mask: Some(k), ..frame.header },
                                            payload: frame.payload,
                                        },
                                    ));
                                },
                                None => {
                                    assert(false);
                                },
                            }
                        },
                    }
                }
                Ok(d)
            },
            Err(e) => Err(e),
        }
    }

    /// Drain the auxiliary frame slot into the out buffer, if its frame
    /// fits under the cap; else leave it queued.
    fn drain_additional(&mut self)
        requires
            old(self).wf(),
        ensures
            final(self).wf(),
            Self::spec_same_reading(*old(self), *final(self)),
            final(self).state == old(self).state,
            spec_drain(
                old(self).mode,
                old(self).config.max_write_buffer_size as int,
                old(self).additional_send,
                old(self).out_bytes(),
                final(self).additional_send,
                final(self).out_bytes(),
            ),
    {
        let a = self.additional_send.take();
        match a {
            None => {},
            Some(f) => {
                let pl = f.payload.len();
                let masked = matches!(self.mode, OperationMode::Client);
                let hl = 2 + crate::header::Length::for_len(pl as u64).additional() + (if masked {
                    4
                } else {
                    0
                });
                assert(hl == spec_header_len(masked, pl as u64));
                let cap = self.frame.max_out_buffer_len;
                let ol = self.frame.out_buffer.len();
                if ol <= cap && hl <= cap - ol && pl <= cap - ol - hl {
                    let ghost fr = f;
                    match self.buffer_frame(f) {
                        Ok(_) => {},
                        Err(_) => {
                            proof {
                                assert(false);
                            }
                        },
                    }
                    proof {
                        assert(fr.header == spec_plain_header(
                            fr.header.fin,
                            fr.header.opcode,
                            None,
                        ));
                        assert(spec_emission(
                            old(self).mode,
                            fr.header.fin,
                            fr.header.opcode,
                            fr.payload@,
                            old(self).out_bytes(),
                            self.out_bytes(),
                        )) by {
                            match old(self).mode {
                                OperationMode::Server => {
                                    assert(self.out_bytes() =~= old(self).out_bytes()
                                        + spec_format_header(
                                        spec_plain_header(fr.header.fin, fr.header.opcode, None),
                                        fr.payload@.len() as u64,
                                    ) + fr.payload@);
                                },
                                OperationMode::Client => {
                                    let k = choose|k: MaskKey|
                                        self.out_bytes() == old(self).out_bytes()
                                            + spec_frame_bytes(
                                            Frame {
                                                header: FrameHeader {
                                                    mask: Some(k),
                                                    ..fr.header
                                                },
                                                payload: fr.payload,
                                            },
                                        );
                                    assert(self.out_bytes() =~= old(self).out_bytes()
                                        + spec_format_header(
                                        spec_plain_header(
                                            fr.header.fin,
                                            fr.header.opcode,
                                            Some(k),
                                        ),
                                        fr.payload@.len() as u64,
                                    ) + spec_masked(fr.payload@, k.bytes()));
                                },
                            }
                        }
                    }
                } else {
                    self.additional_send = Some(f);
                }
            },
        }
    }

    /// Drain pending auxiliary output. In server mode, once reading is
    /// over the close handshake is complete: the session terminates and
    /// reports `ConnectionClosed`.
    pub fn flush(&mut self) -> (r: Result<(), Error>)
        requires
            old(self).wf(),
        ensures
            final(self).wf(),
            Self::spec_same_reading(*old(self), *final(self)),
            spec_drain(
                old(self).mode,
                old(self).config.max_write_buffer_size as int,
                old(self).additional_send,
                old(self).out_bytes(),
                final(self).additional_send,
                final(self).out_bytes(),
            ),
            if old(self).mode is Server && !old(self).state.spec_can_read() {
                r == Err::<(), Error>(Error::ConnectionClosed) && final(self).state
                    is Terminated
            } else {
                r == Ok::<(), Error>(()) && final(self).state == old(self).state
            },
    {
        self.drain_additional();
        if matches!(self.mode, OperationMode::Server) && !self.state.can_read() {
            self.state = WebSocketState::Terminated;
            return Err(Error::ConnectionClosed);
        }
        Ok(())
    }

    /// Write a message, if possible: a terminated session refuses with
    /// `AlreadyClosed`, a closing one with `SendAfterClose`; a frame
    /// that would push the write buffer past its cap is refused whole
    /// with `WriteBufferFull` and nothing is stored.
    pub fn write(&mut self, msg: Message) -> (r: Result<(), Error>)
        requires
            old(self).wf(),
        ensures
            final(self).wf(),
            old(self).state is Terminated ==> r == Err::<(), Error>(Error::AlreadyClosed) && *final(self) == *old(self),
            (!(old(self).state is Terminated) && !(old(self).state is Active)) ==> r == Err::<
                (),
                Error,
            >(Error::Protocol(ProtocolError::SendAfterClose)) && *final(self) == *old(self),
            old(self).state is Active ==> Self::spec_write_active(*old(self), msg, *final(self), r),
    {
        match self.state.check_if_terminated() {
            Err(e) => {
                return Err(e);
            },
            Ok(()) => {},
        }
        if !self.state.is_active() {
            return Err(Error::Protocol(ProtocolError::SendAfterClose));
        }
        match msg {
            Message::Text(u) => {
                let ghost pv = u@;
                let frame = Frame::new_data(u.into_vec(), OpCode::Data(Data::Text), true);
                self.send_plain_frame(frame, Ghost(pv))
            },
            Message::Binary(b) => {
                let ghost pv = b@;
                let frame = Frame::new_data(b, OpCode::Data(Data::Binary), true);
                self.send_plain_frame(frame, Ghost(pv))
            },
            Message::Ping(p) => {
                let ghost pv = p@;
                let frame = Frame::new_ping(p);
                self.send_plain_frame(frame, Ghost(pv))
            },
            Message::Pong(p) => {
                self.set_additional(Frame::new_pong(p));
                self.drain_additional();
                Ok(())
            },
            Message::Close(c) => self.close(c),
            Message::Frame(f) => {
                match self.buffer_frame(f) {
                    Err(e) => Err(e),
                    Ok(_) => {
                        self.drain_additional();
                        Ok(())
                    },
                }
            },
        }
    }

    /// Emit one session-built frame followed by an auxiliary drain.
    fn send_plain_frame(&mut self, frame: Frame, payload_view: Ghost<Seq<u8>>) -> (r: Result<
        (),
        Error,
    >)
        requires
            old(self).wf(),
            frame.header == spec_plain_header(frame.header.fin, frame.header.opcode, None),
            frame.payload@ == payload_view@,
        ensures
            final(self).wf(),
            Self::spec_write_data(
                *old(self),
                frame.header.fin,
                frame.header.opcode,
                payload_view@,
                *final(self),
                r,
            ),
    {
        match self.buffer_frame(frame) {
            Err(e) => {
                proof {
                    assert(spec_frame_emit_len(old(self).mode, frame) == spec_emit_len(
                        old(self).mode,
                        payload_view@.len() as int,
                    ));
                }
                Err(e)
            },
            Ok(_) => {
                let ghost mid = self.out_bytes();
                proof {
                    assert(spec_emission(
                        old(self).mode,
                        frame.header.fin,
                        frame.header.opcode,
                        payload_view@,
                        old(self).out_bytes(),
                        mid,
                    )) by {
                        match old(self).mode {
                            OperationMode::Server => {
                                assert(mid =~= old(self).out_bytes() + spec_format_header(
                                    spec_plain_header(frame.header.fin, frame.header.opcode, None),
                                    payload_view@.len() as u64,
                                ) + payload_view@);
                            },
                            OperationMode::Client => {
                                let k = choose|k: MaskKey|
                                    mid == old(self).out_bytes() + spec_frame_bytes(
                                        Frame {
                                            header: FrameHeader { mask: Some(k), ..frame.header },
                                            payload: frame.payload,
                                        },
                                    );
                                assert(mid =~= old(self).out_bytes() + spec_format_header(
                                    spec_plain_header(
                                        frame.header.fin,
                                        frame.header.opcode,
                                        Some(k),
                                    ),
                                    payload_view@.len() as u64,
                                ) + spec_masked(payload_view@, k.bytes()));
                            },
                        }
                    }
                }
                self.drain_additional();
                Ok(())
            },
        }
    }

    /// Close the connection: an active session moves to `ClosedByUs` and
    /// a close frame is queued; later calls only flush. The close frame
    /// is guaranteed queued once this returns successfully.
    pub fn close(&mut self, code: Option<CloseFrame>) -> (r: Result<(), Error>)
        requires
            old(self).wf(),
        ensures
            final(self).wf(),
            old(self).state is Active ==> Self::spec_close_active(*old(self), code, *final(self), r),
            !(old(self).state is Active) ==> {
                &&& Self::spec_same_reading(*old(self), *final(self))
                &&& spec_drain(
                    old(self).mode,
                    old(self).config.max_write_buffer_size as int,
                    old(self).additional_send,
                    old(self).out_bytes(),
                    final(self).additional_send,
                    final(self).out_bytes(),
                )
                &&& if old(self).mode is Server && !old(self).state.spec_can_read() {
                    r == Err::<(), Error>(Error::ConnectionClosed) && final(self).state
                        is Terminated
                } else {
                    r == Ok::<(), Error>(()) && final(self).state == old(self).state
                }
            },
    {
        if matches!(self.state, WebSocketState::Active) {
            self.state = WebSocketState::ClosedByUs;
            let ghost pre2 = *self;
            let payload = close_payload_bytes(&code);
            let ghost pv = payload@;
            let frame = Frame::new(
                FrameHeader {
                    fin: true,
                    rsv1: false,
                    rsv2: false,
                    rsv3: false,
                    opcode: OpCode::Control(Control::Close),
                    mask: None,
                },
                payload,
            );
            let r = self.send_plain_frame(frame, Ghost(pv));
            proof {
                assert(Self::spec_write_data(
                    pre2,
                    true,
                    OpCode::Control(Control::Close),
                    pv,
                    *self,
                    r,
                ));
            }
            match r {
                Err(e) => Err(e),
                Ok(()) => Ok(()),
            }
        } else {
            self.flush()
        }
    }

    /// What the prelude of a read does: the auxiliary slot drains into
    /// the out buffer and nothing else moves.
    pub open spec fn spec_prelude(pre: Self, mid: Self) -> bool {
        &&& Self::spec_same_reading(pre, mid)
        &&& mid.state == pre.state
        &&& spec_drain(
            pre.mode,
            pre.config.max_write_buffer_size as int,
            pre.additional_send,
            pre.out_bytes(),
            mid.additional_send,
            mid.out_bytes(),
        )
    }

    /// A one-shot outcome of the read loop from state `s`: the codec
    /// stalls for more bytes (plain or at the end of the stream), the
    /// codec refuses the bytes, or a frame is extracted and its dispatch
    /// settles the call.
    pub open spec fn spec_read_terminal(
        s: Self,
        post: Self,
        r: Result<Option<Message>, Error>,
    ) -> bool {
        ||| (exists|c: FrameCodec|
            {
                &&& #[trigger] spec_codec_step(s, c, Ok(None))
                &&& if s.eof {
                    r == Err::<Option<Message>, Error>(spec_eof_error(s.state)) && post == (
                    WebSocketContext { state: WebSocketState::Terminated, ..spec_with_codec(s, c) })
                } else {
                    r == Ok::<Option<Message>, Error>(None) && post == spec_with_codec(s, c)
                }
            })
        ||| (exists|c: FrameCodec, e: Error|
            #[trigger] spec_codec_step(s, c, Err(e)) && r == Err::<Option<Message>, Error>(e))
        ||| (exists|c: FrameCodec, f: Frame|
            {
                &&& #[trigger] spec_codec_step(s, c, Ok(Some(f)))
                &&& Self::spec_handle_frame(spec_with_codec(s, c), f, post, r)
                &&& !(r == Ok::<Option<Message>, Error>(None))
            })
    }

    /// One frame is extracted and consumed without completing a message.
    pub open spec fn spec_read_advance(s: Self, mid: Self) -> bool {
        exists|c: FrameCodec, f: Frame|
            #[trigger] spec_codec_step(s, c, Ok(Some(f))) && Self::spec_handle_frame(
                spec_with_codec(s, c),
                f,
                mid,
                Ok(None),
            )
    }

    /// The read loop from state `s`: some number of frames are consumed
    /// without completing a message, then a one-shot outcome settles the
    /// call with result `r` and final state `post`.
    pub open spec fn spec_read_steps(
        s: Self,
        post: Self,
        r: Result<Option<Message>, Error>,
        fuel: nat,
    ) -> bool
        decreases fuel,
    {
        ||| Self::spec_read_terminal(s, post, r)
        ||| (fuel > 0 && exists|mid: Self|
            #[trigger] Self::spec_read_advance(s, mid) && Self::spec_read_steps(
                mid,
                post,
                r,
                (fuel - 1) as nat,
            ))
    }

    /// Read one message if the bytes at hand complete one. `Ok(None)`
    /// means the driver must feed more bytes (or report the end of the
    /// stream). Queued auxiliary frames are drained first; in server
    /// mode a session whose reading is over terminates with
    /// `ConnectionClosed`; a terminated session refuses with
    /// `AlreadyClosed` ever after.
    pub fn read(&mut self) -> (r: Result<Option<Message>, Error>)
        requires
            old(self).wf(),
        ensures
            final(self).wf(),
            final(self).mode == old(self).mode,
            final(self).config == old(self).config,
            old(self).state is Terminated ==> r == Err::<Option<Message>, Error>(
                Error::AlreadyClosed,
            ) && *final(self) == *old(self),
            (!(old(self).state is Terminated) && old(self).mode is Server && !old(self).state.spec_can_read()) ==> r == Err::<Option<Message>, Error>(Error::ConnectionClosed)
                && final(self).state is Terminated,
            r == Err::<Option<Message>, Error>(Error::ConnectionClosed) ==> final(self).state
                is Terminated,
            r == Err::<Option<Message>, Error>(Error::Protocol(ProtocolError::ResetWithoutClosing))
                ==> final(self).state is Terminated,
            !(old(self).state is Terminated) ==> (exists|mid: WebSocketContext|
                {
                    &&& #[trigger] Self::spec_prelude(*old(self), mid)
                    &&& if old(self).mode is Server && !old(self).state.spec_can_read() {
                        r == Err::<Option<Message>, Error>(Error::ConnectionClosed) && *final(self)
                            == (WebSocketContext { state: WebSocketState::Terminated, ..mid })
                    } else {
                        exists|n: nat| #[trigger] Self::spec_read_steps(mid, *final(self), r, n)
                    }
                }),
            (match r {
                Ok(None) => !old(self).eof,
                Ok(Some(m)) => {
                    &&& (m matches Message::Text(u) ==> (old(self).config.max_message_size matches
                        Some(mx) ==> u@.len() <= mx))
                    &&& (m matches Message::Binary(b) ==> (old(self).config.max_message_size matches Some(mx) ==> b@.len() <= mx))
                    &&& (m matches Message::Ping(p) ==> p@.len() <= 125 && (old(self).state
                        is Active ==> (final(self).additional_send matches Some(f)
                        && f.header.opcode == OpCode::Control(Control::Pong) && f.payload@ == p@)))
                    &&& (m matches Message::Pong(p) ==> p@.len() <= 125)
                },
                _ => true,
            }),
    {
        if matches!(self.state, WebSocketState::Terminated) {
            return Err(Error::AlreadyClosed);
        }
        self.drain_additional();
        let ghost start = *self;
        proof {
            assert(Self::spec_prelude(*old(self), start));
        }
        if matches!(self.mode, OperationMode::Server) && !self.state.can_read() {
            self.state = WebSocketState::Terminated;
            proof {
                assert(*self == (WebSocketContext { state: WebSocketState::Terminated, ..start }));
            }
            return Err(Error::ConnectionClosed);
        }
        let ghost state0 = self.state;
        loop
            invariant
                self.wf(),
                self.mode == old(self).mode,
                self.config == old(self).config,
                self.state == state0,
                state0 == old(self).state,
                !(self.state is Terminated),
                !(self.mode is Server && !state0.spec_can_read()),
                self.eof == old(self).eof,
                Self::spec_prelude(*old(self), start),
                forall|p: WebSocketContext, rr: Result<Option<Message>, Error>, n: nat|
                    #[trigger] Self::spec_read_steps(*self, p, rr, n) ==> exists|m2: nat|
                        Self::spec_read_steps(start, p, rr, m2),
            decreases self.frame.unread().len(),
        {
            let ghost head = *self;
            let is_server = matches!(self.mode, OperationMode::Server);
            let step = self.frame.read(
                self.config.max_frame_size,
                is_server,
                self.config.accept_unmasked_frames,
            );
            let ghost c1 = self.frame;
            proof {
                assert(*self == spec_with_codec(head, c1));
            }
            match step {
                Err(e) => {
                    proof {
                        assert(spec_codec_step(head, c1, Err(e)));
                        assert(Self::spec_read_terminal(head, *self, Err::<Option<Message>, Error>(e)));
                        assert(Self::spec_read_steps(head, *self, Err::<Option<Message>, Error>(e), 0));
                    }
                    return Err(e);
                },
                Ok(None) => {
                    proof {
                        assert(spec_codec_step(head, c1, Ok(None)));
                    }
                    if self.eof {
                        let st = self.state;
                        self.state = WebSocketState::Terminated;
                        let out: Result<Option<Message>, Error> = match st {
                            WebSocketState::ClosedByPeer | WebSocketState::CloseAcknowledged => Err(
                                Error::ConnectionClosed,
                            ),
                            _ => Err(Error::Protocol(ProtocolError::ResetWithoutClosing)),
                        };
                        proof {
                            assert(out == Err::<Option<Message>, Error>(spec_eof_error(head.state)));
                            assert(*self == (WebSocketContext {
                                state: WebSocketState::Terminated,
                                ..spec_with_codec(head, c1)
                            }));
                            assert(Self::spec_read_terminal(head, *self, out));
                            assert(Self::spec_read_steps(head, *self, out, 0));
                        }
                        return out;
                    }
                    proof {
                        assert(Self::spec_read_terminal(head, *self, Ok::<Option<Message>, Error>(None)));
                        assert(Self::spec_read_steps(head, *self, Ok::<Option<Message>, Error>(None), 0));
                    }
                    return Ok(None);
                },
                Ok(Some(f)) => {
                    let ghost s1 = *self;
                    match self.handle_frame(f) {
                        Ok(Some(m)) => {
                            proof {
                                assert(spec_codec_step(head, c1, Ok(Some(f))));
                                assert(Self::spec_handle_frame(s1, f, *self, Ok(Some(m))));
                                assert(Self::spec_read_terminal(head, *self, Ok(Some(m))));
                                assert(Self::spec_read_steps(head, *self, Ok(Some(m)), 0));
                            }
                            return Ok(Some(m));
                        },
                        Err(e) => {
                            proof {
                                assert(spec_codec_step(head, c1, Ok(Some(f))));
                                assert(Self::spec_handle_frame(s1, f, *self, Err::<Option<Message>, Error>(e)));
                                assert(Self::spec_read_terminal(head, *self, Err::<Option<Message>, Error>(e)));
                                assert(Self::spec_read_steps(head, *self, Err::<Option<Message>, Error>(e), 0));
                            }
                            return Err(e);
                        },
                        Ok(None) => {
                            proof {
                                assert(spec_codec_step(head, c1, Ok(Some(f))));
                                assert(Self::spec_handle_frame(s1, f, *self, Ok::<Option<Message>, Error>(None)));
                                assert(Self::spec_read_advance(head, *self));
                                assert forall|p: WebSocketContext, rr: Result<Option<Message>, Error>, n: nat|
                                    #[trigger] Self::spec_read_steps(*self, p, rr, n) implies exists|
                                    m2: nat,
                                | Self::spec_read_steps(start, p, rr, m2) by {
                                    assert(Self::spec_read_steps(head, p, rr, n + 1)) by {
                                        assert(Self::spec_read_advance(head, *self)
                                            && Self::spec_read_steps(
                                            *self,
                                            p,
                                            rr,
                                            ((n + 1) - 1) as nat,
                                        ));
                                    }
                                }
                            }
                        },
                    }
                },
            }
        }
    }

    /// Queue an auxiliary frame: only an empty slot or a queued pong
    /// gives way, so a queued close echo is never displaced.
    fn set_additional(&mut self, additional: Frame)
        requires
            additional.header.fin,
            !additional.header.rsv1,
            !additional.header.rsv2,
            !additional.header.rsv3,
            additional.header.mask is None,
        ensures
            *final(self) == (WebSocketContext {
                additional_send: final(self).additional_send,
                ..*old(self)
            }),
            spec_set_additional_rel(
                old(self).additional_send,
                additional.header.opcode,
                additional.payload@,
                final(self).additional_send,
            ),
    {
        let empty_or_pong = match &self.additional_send {
            None => true,
            Some(f) => matches!(f.header.opcode, OpCode::Control(Control::Pong)),
        };
        if empty_or_pong {
            self.additional_send = Some(additional);
        }
    }

    /// Drive the close-state table on a received close command. Tells
    /// whether a close message must be surfaced to the caller.
    pub(crate) fn try_close(&mut self, close: Option<CloseFrame>) -> (r: Option<Option<CloseFrame>>)
        requires
            old(self).wf(),
            !(old(self).state is Terminated),
        ensures
            final(self).wf(),
            Self::spec_try_close(*old(self), close, *final(self), r),
    {
        match self.state {
            WebSocketState::Active => {
                self.state = WebSocketState::ClosedByPeer;
                let close2: Option<CloseFrame> = match close {
                    None => None,
                    Some(cf) => {
                        if cf.code.allowed() {
                            Some(cf)
                        } else {
                            Some(
                                CloseFrame {
                                    code: CloseCode::Protocol,
                                    reason: protocol_violation_reason(),
                                },
                            )
                        }
                    },
                };
                let ghost c2 = close2;
                let reply_payload: Vec<u8> = close_payload_bytes(&close2);
                let reply = Frame::new(
                    FrameHeader {
                        fin: true,
                        rsv1: false,
                        rsv2: false,
                        rsv3: false,
                        opcode: OpCode::Control(Control::Close),
                        mask: None,
                    },
                    reply_payload,
                );
                self.set_additional(reply);
                proof {
                    assert(spec_set_additional_rel(
                        old(self).additional_send,
                        OpCode::Control(Control::Close),
                        spec_close_payload(c2),
                        self.additional_send,
                    ));
                }
                Some(close2)
            },
            WebSocketState::ClosedByUs => {
                self.state = WebSocketState::CloseAcknowledged;
                Some(close)
            },
            WebSocketState::ClosedByPeer | WebSocketState::CloseAcknowledged => None,
            WebSocketState::Terminated => {
                proof {
                    assert(false);
                }
                None
            },
        }
    }

    /// Dispatch one frame handed up by the codec: enforce the frame
    /// rules, answer pings, drive the close table, and reassemble
    /// fragmented messages. `Ok(None)` means the frame was consumed
    /// without completing a message.
    pub fn handle_frame(&mut self, frame: Frame) -> (r: Result<Option<Message>, Error>)
        requires
            old(self).wf(),
        ensures
            final(self).wf(),
            Self::spec_handle_frame(*old(self), frame, *final(self), r),
    {
        let ghost pre = *old(self);
        if !self.state.can_read() {
            return Err(Error::Protocol(ProtocolError::ReceiveAfterClose));
        }
        let h = frame.header;
        if h.rsv1 || h.rsv2 || h.rsv3 {
            return Err(Error::Protocol(ProtocolError::NonZeroReservedBits));
        }
        if matches!(self.mode, OperationMode::Client) && h.mask.is_some() {
            return Err(Error::Protocol(ProtocolError::MaskedFrameFromServer));
        }
        match h.opcode {
            OpCode::Control(ctrl) => {
                if !h.fin {
                    return Err(Error::Protocol(ProtocolError::FragmentedControlFrame));
                }
                if frame.payload.len() > crate::MAX_CONTROL_FRAME_PAYLOAD {
                    return Err(Error::Protocol(ProtocolError::ControlFrameTooBig));
                }
                match ctrl {
                    Control::Close => {
                        let ghost p = frame.payload@;
                        let close = match frame.into_close() {
                            Ok(c) => c,
                            Err(e) => {
                                return Err(e);
                            },
                        };
                        let ghost pc = close;
                        let result = self.try_close(close);
                        let ghost c = result;
                        let r: Result<Option<Message>, Error> = match result {
                            Some(cf) => Ok(Some(Message::Close(cf))),
                            None => Ok(None),
                        };
                        proof {
                            assert(Self::spec_parsed_close_matches(p, pc));
                            assert(Self::spec_try_close(pre, pc, *self, c));
                        }
                        r
                    },
                    Control::Reserved(n) => Err(
                        Error::Protocol(ProtocolError::UnknownControlOpCode(n)),
                    ),
                    Control::Ping => {
                        let payload = frame.into_payload();
                        if self.state.is_active() {
                            let pong_payload = copy_bytes(&payload);
                            self.set_additional(Frame::new_pong(pong_payload));
                        }
                        Ok(Some(Message::Ping(payload)))
                    },
                    Control::Pong => Ok(Some(Message::Pong(frame.into_payload()))),
                }
            },
            OpCode::Data(d) => {
                let fin = h.fin;
                match d {
                    Data::Reserved(n) => Err(Error::Protocol(ProtocolError::UnknownDataOpCode(n))),
                    Data::Continuation => {
                        if self.incomplete.is_none() {
                            return Err(Error::Protocol(ProtocolError::UnexpectedContinue));
                        }
                        let payload = frame.into_payload();
                        match &mut self.incomplete {
                            Some(msg) => {
                                let ghost m0 = *msg;
                                match msg.extend(&payload, self.config.max_message_size) {
                                    Ok(()) => {},
                                    Err(e) => {
                                        proof {
                                            let s = m0.pending() + payload@;
                                            if crate::utf8::spec_is_valid_utf8(s) {
                                                crate::utf8::lemma_valid_utf8_is_valid_stream(s, 0);
                                            }
                                        }
                                        return Err(e);
                                    },
                                }
                            },
                            None => {
                                proof {
                                    assert(false);
                                }
                            },
                        }
                        if fin {
                            let done = self.incomplete.take();
                            match done {
                                Some(m) => match m.complete() {
                                    Ok(msg) => Ok(Some(msg)),
                                    Err(e) => Err(e),
                                },
                                None => {
                                    proof {
                                        assert(false);
                                    }
                                    Ok(None)
                                },
                            }
                        } else {
                            Ok(None)
                        }
                    },
                    Data::Text => {
                        if self.incomplete.is_some() {
                            return Err(
                                Error::Protocol(ProtocolError::ExpectedFragment(FragmentType::Text)),
                            );
                        }
                        if fin {
                            match check_max_size(frame.payload.len(), self.config.max_message_size) {
                                Ok(()) => {},
                                Err(e) => {
                                    return Err(e);
                                },
                            }
                            match frame.into_text() {
                                Ok(u) => Ok(Some(Message::Text(u))),
                                Err(e) => Err(e),
                            }
                        } else {
                            let payload = frame.into_payload();
                            let mut incomplete = IncompleteMessage::new(IncompleteMessageType::Text);
                            match incomplete.extend(&payload, self.config.max_message_size) {
                                Ok(()) => {},
                                Err(e) => {
                                    return Err(e);
                                },
                            }
                            self.incomplete = Some(incomplete);
                            Ok(None)
                        }
                    },
                    Data::Binary => {
                        if self.incomplete.is_some() {
                            return Err(
                                Error::Protocol(
                                    ProtocolError::ExpectedFragment(FragmentType::Binary),
                                ),
                            );
                        }
                        if fin {
                            match check_max_size(frame.payload.len(), self.config.max_message_size) {
                                Ok(()) => {},
                                Err(e) => {
                                    return Err(e);
                                },
                            }
                            Ok(Some(Message::Binary(frame.into_payload())))
                        } else {
                            let payload = frame.into_payload();
                            let mut incomplete = IncompleteMessage::new(
                                IncompleteMessageType::Binary,
                            );
                            match incomplete.extend(&payload, self.config.max_message_size) {
                                Ok(()) => {},
                                Err(e) => {
                                    return Err(e);
                                },
                            }
                            self.incomplete = Some(incomplete);
                            Ok(None)
                        }
                    },
                }
            },
        }
    }
}

/// Copy a byte vector.
fn copy_bytes(v: &Vec<u8>) -> (r: Vec<u8>)
    ensures
        r@ == v@,
{
    let mut r: Vec<u8> = Vec::new();
    r.extend_from_slice(v.as_slice());
    assert(r@ =~= v@);
    r
}

/// The fixed reason text of a close echo for a disallowed close code.
fn protocol_violation_reason() -> (r: Utf8Bytes)
    ensures
        r.wf(),
        r@ == spec_protocol_violation_reason(),
{
    let v: Vec<u8> = vec![
        80u8, 114, 111, 116, 111, 99, 111, 108, 32, 118, 105, 111, 108, 97, 116, 105, 111, 110,
    ];
    proof {
        assert(v@ =~= spec_protocol_violation_reason());
        assert forall|j: int| 0 <= j < v@.len() implies v@[j] < 0x80 by {}
        lemma_ascii_is_valid_utf8(v@, 0);
    }
    Utf8Bytes::from_vec_unchecked(v)
}

/// The wire payload of a close command: the code in two big-endian
/// bytes, then the reason.
fn close_payload_bytes(msg: &Option<CloseFrame>) -> (r: Vec<u8>)
    ensures
        r@ == spec_close_payload(*msg),
{
    match msg {
        Some(cf) => {
            let code = cf.code.to_u16();
            let mut p: Vec<u8> = Vec::new();
            p.push(#[verifier::truncate] ((code >> 8) as u8));
            p.push(#[verifier::truncate] (code as u8));
            p.extend_from_slice(cf.reason.as_bytes().as_slice());
            assert(p@ =~= spec_close_payload(*msg));
            p
        },
        None => {
            let p: Vec<u8> = Vec::new();
            assert(p@ =~= spec_close_payload(*msg));
            p
        },
    }
}

} // verus!
