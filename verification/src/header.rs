//! The frame header codec: bit-level parsing and emission of the 2-14 byte
//! WebSocket frame header, with a full wire specification and a proof that
//! the two directions are inverse.
use vstd::prelude::*;
use crate::buffer::ByteCursor;
use crate::error::{Error, ProtocolError};
use crate::mask::MaskKey;
use crate::opcode::OpCode;

verus! {

/// The longest possible header: 2 base bytes, 8 length bytes, 4 mask bytes.
pub const MAX_HEADER_SIZE: usize = 14;

/// A WebSocket frame header.
#[derive(Debug, Clone, Copy, PartialEq, Eq, Structural)]
pub struct FrameHeader {
    /// Whether the frame is the last one of a possibly fragmented message.
    pub fin: bool,
    /// First bit reserved for protocol extensions.
    pub rsv1: bool,
    /// Second bit reserved for protocol extensions.
    pub rsv2: bool,
    /// Third bit reserved for protocol extensions.
    pub rsv3: bool,
    /// The frame opcode.
    pub opcode: OpCode,
    /// The frame mask, if any.
    pub mask: Option<MaskKey>,
}

/// The payload length encoding chosen for a frame: 7-bit inline,
/// 16-bit extended, or 64-bit extended.
#[derive(Debug, Clone, Copy, PartialEq, Eq, Structural)]
pub enum Length {
    /// Length below 126, stored inline.
    U8(u8),
    /// Length below 65536, stored in 2 extension bytes.
    U16,
    /// Any larger length, stored in 8 extension bytes.
    U64,
}

impl Length {
    /// The encoding chosen for a payload length.
    pub open spec fn spec_for_len(len: u64) -> Length {
        if len < 126 {
            Length::U8(len as u8)
        } else if len < 65536 {
            Length::U16
        } else {
            Length::U64
        }
    }

    /// How many extension bytes the encoding takes.
    pub open spec fn spec_additional(self) -> int {
        match self {
            Length::U8(_) => 0,
            Length::U16 => 2,
            Length::U64 => 8,
        }
    }

    /// The inline length byte of the encoding.
    pub open spec fn spec_len_byte(self) -> u8 {
        match self {
            Length::U8(b) => b,
            Length::U16 => 126,
            Length::U64 => 127,
        }
    }

    /// Choose the encoding for a payload length.
    pub fn for_len(len: u64) -> (r: Length)
        ensures
            r == Length::spec_for_len(len),
    {
        if len < 126 {
            Length::U8(len as u8)
        } else if len < 65536 {
            Length::U16
        } else {
            Length::U64
        }
    }

    /// How many extension bytes the encoding takes.
    pub fn additional(&self) -> (r: usize)
        ensures
            r == self.spec_additional(),
    {
        match *self {
            Length::U8(_) => 0,
            Length::U16 => 2,
            Length::U64 => 8,
        }
    }

    /// The inline length byte of the encoding.
    pub fn len_byte(&self) -> (r: u8)
        ensures
            r == self.spec_len_byte(),
    {
        match *self {
            Length::U8(b) => b,
            Length::U16 => 126,
            Length::U64 => 127,
        }
    }

    /// The encoding announced by an inline length byte.
    pub fn for_byte(byte: u8) -> (r: Length)
        ensures
            r == (if byte & 0x7F == 126 {
                Length::U16
            } else if byte & 0x7F == 127 {
                Length::U64
            } else {
                Length::U8(byte & 0x7F)
            }),
    {
        let b = byte & 0x7F;
        if b == 126 {
            Length::U16
        } else if b == 127 {
            Length::U64
        } else {
            Length::U8(b)
        }
    }
}

/// The two big-endian bytes of a length below 65536.
pub open spec fn spec_be2(n: u64) -> Seq<u8> {
    seq![(n >> 8) as u8, n as u8]
}

/// The eight big-endian bytes of a length.
pub open spec fn spec_be8(n: u64) -> Seq<u8> {
    seq![
        (n >> 56) as u8,
        (n >> 48) as u8,
        (n >> 40) as u8,
        (n >> 32) as u8,
        (n >> 24) as u8,
        (n >> 16) as u8,
        (n >> 8) as u8,
        n as u8,
    ]
}

/// The number read from two big-endian bytes.
pub open spec fn spec_u16_of(b0: u8, b1: u8) -> u64 {
    ((b0 as u64) << 8) | (b1 as u64)
}

/// The number read from eight big-endian bytes.
pub open spec fn spec_u64_of(s: Seq<u8>) -> u64 {
    ((s[0] as u64) << 56) | ((s[1] as u64) << 48) | ((s[2] as u64) << 40) | ((s[3] as u64) << 32)
        | ((s[4] as u64) << 24) | ((s[5] as u64) << 16) | ((s[6] as u64) << 8) | (s[7] as u64)
}

/// The first header byte: FIN, the three reserved bits, and the opcode.
pub open spec fn spec_first_byte(h: FrameHeader) -> u8 {
    h.opcode.spec_to_u8() | (if h.fin {
        0x80u8
    } else {
        0u8
    }) | (if h.rsv1 {
        0x40u8
    } else {
        0u8
    }) | (if h.rsv2 {
        0x20u8
    } else {
        0u8
    }) | (if h.rsv3 {
        0x10u8
    } else {
        0u8
    })
}

/// The second header byte: the mask bit and the inline length byte.
pub open spec fn spec_second_byte(h: FrameHeader, length: u64) -> u8 {
    Length::spec_for_len(length).spec_len_byte() | (if h.mask is Some {
        0x80u8
    } else {
        0u8
    })
}

/// The extended length bytes, if the inline byte does not carry the length.
pub open spec fn spec_len_ext(length: u64) -> Seq<u8> {
    if length < 126 {
        Seq::empty()
    } else if length < 65536 {
        spec_be2(length)
    } else {
        spec_be8(length)
    }
}

/// The mask bytes, if the header carries a mask.
pub open spec fn spec_mask_bytes(h: FrameHeader) -> Seq<u8> {
    match h.mask {
        Some(m) => m.bytes(),
        None => Seq::empty(),
    }
}

/// The wire bytes of a header formatted for a payload length.
pub open spec fn spec_format_header(h: FrameHeader, length: u64) -> Seq<u8> {
    seq![spec_first_byte(h), spec_second_byte(h, length)] + spec_len_ext(length)
        + spec_mask_bytes(h)
}

/// The byte size of a header formatted for a payload length.
pub open spec fn spec_header_len(masked: bool, length: u64) -> int {
    2 + Length::spec_for_len(length).spec_additional() + if masked {
        4int
    } else {
        0int
    }
}

/// What a header parse attempt yields on a byte sequence.
pub enum HeaderParse {
    /// More bytes are needed before anything can be decided.
    Incomplete,
    /// The frame uses a reserved opcode nibble.
    BadOpcode(u8),
    /// A complete header, the announced payload length, and the number of
    /// bytes the header occupies.
    Done(FrameHeader, u64, int),
}

/// Parse a frame header from the front of a byte sequence.
pub open spec fn spec_parse_header(s: Seq<u8>) -> HeaderParse {
    if s.len() < 2 {
        HeaderParse::Incomplete
    } else {
        let a = s[0];
        let b = s[1];
        let lb = b & 0x7F;
        let ext: int = if lb == 126 {
            2
        } else if lb == 127 {
            8
        } else {
            0
        };
        if s.len() < 2 + ext {
            HeaderParse::Incomplete
        } else {
            let length: u64 = if lb == 126 {
                spec_u16_of(s[2], s[3])
            } else if lb == 127 {
                spec_u64_of(s.subrange(2, 10))
            } else {
                lb as u64
            };
            let masked = b & 0x80 != 0;
            if masked && s.len() < 2 + ext + 4 {
                HeaderParse::Incomplete
            } else {
                let opcode = OpCode::spec_from_u8((a & 0x0F) as u8);
                if opcode.spec_is_reserved() {
                    HeaderParse::BadOpcode(a & 0x0F)
                } else {
                    let mask = if masked {
                        Some(
                            MaskKey {
                                b0: s[2 + ext],
                                b1: s[2 + ext + 1],
                                b2: s[2 + ext + 2],
                                b3: s[2 + ext + 3],
                            },
                        )
                    } else {
                        None
                    };
                    HeaderParse::Done(
                        FrameHeader {
                            fin: a & 0x80 != 0,
                            rsv1: a & 0x40 != 0,
                            rsv2: a & 0x20 != 0,
                            rsv3: a & 0x10 != 0,
                            opcode,
                            mask,
                        },
                        length,
                        2 + ext + if masked {
                            4int
                        } else {
                            0int
                        },
                    )
                }
            }
        }
    }
}

/// The error returned for a reserved opcode nibble.
pub open spec fn spec_bad_opcode_error(n: u8) -> Error {
    if 3 <= n && n <= 7 {
        Error::Protocol(ProtocolError::UnknownDataOpCode(n))
    } else {
        Error::Protocol(ProtocolError::UnknownControlOpCode(n))
    }
}

impl Default for FrameHeader {
    /// A final close frame header with no mask and clear reserved bits.
    fn default() -> (r: Self)
        ensures
            r.fin == false,
            r.rsv1 == false,
            r.rsv2 == false,
            r.rsv3 == false,
            r.opcode == OpCode::Control(crate::opcode::Control::Close),
            r.mask is None,
    {
        FrameHeader {
            fin: false,
            rsv1: false,
            rsv2: false,
            rsv3: false,
            opcode: OpCode::Control(crate::opcode::Control::Close),
            mask: None,
        }
    }
}

impl FrameHeader {
    /// Get the size of the header formatted with given payload length.
    pub fn len(&self, length: u64) -> (r: usize)
        ensures
            r == spec_header_len(self.mask is Some, length),
            r == spec_format_header(*self, length).len(),
            2 <= r <= MAX_HEADER_SIZE,
    {
        let r = 2 + Length::for_len(length).additional() + (if self.mask.is_some() {
            4
        } else {
            0
        });
        assert(spec_format_header(*self, length).len() == spec_header_len(
            self.mask is Some,
            length,
        ));
        r
    }

    /// Format a header for given payload size, appending the wire bytes.
    pub fn format(&self, length: u64, output: &mut Vec<u8>)
        ensures
            final(output)@ == old(output)@ + spec_format_header(*self, length),
    {
        let code: u8 = self.opcode.to_u8();
        let first_byte = code | (if self.fin {
            0x80u8
        } else {
            0u8
        }) | (if self.rsv1 {
            0x40u8
        } else {
            0u8
        }) | (if self.rsv2 {
            0x20u8
        } else {
            0u8
        }) | (if self.rsv3 {
            0x10u8
        } else {
            0u8
        });
        let len = Length::for_len(length);
        let second_byte = len.len_byte() | (if self.mask.is_some() {
            0x80u8
        } else {
            0u8
        });
        output.push(first_byte);
        output.push(second_byte);
        match len {
            Length::U8(_) => {},
            Length::U16 => {
                output.push(#[verifier::truncate] ((length >> 8) as u8));
                output.push(#[verifier::truncate] (length as u8));
            },
            Length::U64 => {
                output.push(#[verifier::truncate] ((length >> 56) as u8));
                output.push(#[verifier::truncate] ((length >> 48) as u8));
                output.push(#[verifier::truncate] ((length >> 40) as u8));
                output.push(#[verifier::truncate] ((length >> 32) as u8));
                output.push(#[verifier::truncate] ((length >> 24) as u8));
                output.push(#[verifier::truncate] ((length >> 16) as u8));
                output.push(#[verifier::truncate] ((length >> 8) as u8));
                output.push(#[verifier::truncate] (length as u8));
            },
        }
        match &self.mask {
            Some(m) => {
                output.push(m.b0);
                output.push(m.b1);
                output.push(m.b2);
                output.push(m.b3);
            },
            None => {},
        }
        assert(final(output)@ =~= old(output)@ + spec_format_header(*self, length));
    }

    /// Generate a random frame mask and store it in the header.
    /// The frame contents are not touched.
    pub fn set_random_mask(&mut self)
        ensures
            final(self).fin == old(self).fin,
            final(self).rsv1 == old(self).rsv1,
            final(self).rsv2 == old(self).rsv2,
            final(self).rsv3 == old(self).rsv3,
            final(self).opcode == old(self).opcode,
            final(self).mask is Some,
    {
        self.mask = Some(crate::mask::generate());
    }

    /// Parse a header from the cursor. Returns `None` and leaves the
    /// position alone if the bytes at hand are not enough.
    /// The announced payload size is returned along with the header.
    pub fn parse(cursor: &mut ByteCursor) -> (r: Result<Option<(FrameHeader, u64)>, Error>)
        requires
            old(cursor).wf(),
        ensures
            final(cursor).wf(),
            final(cursor).data == old(cursor).data,
            match spec_parse_header(old(cursor).rest()) {
                HeaderParse::Incomplete => r matches Ok(o) && o is None && final(cursor).pos == old(
                    cursor,
                ).pos,
                HeaderParse::BadOpcode(n) => r matches Err(e) && e == spec_bad_opcode_error(n),
                HeaderParse::Done(h, length, consumed) => r matches Ok(o) && o == Some(
                    (h, length),
                ) && final(cursor).pos == old(cursor).pos + consumed,
            },
    {
        let init = cursor.position();
        let r = FrameHeader::parse_internal(cursor);
        match r {
            Ok(None) => {
                cursor.set_position(init);
                Ok(None)
            },
            other => other,
        }
    }

    /// Internal parse engine: as `parse`, but the position is not restored
    /// when the bytes at hand are not enough.
    pub(crate) fn parse_internal(cursor: &mut ByteCursor) -> (r: Result<
        Option<(FrameHeader, u64)>,
        Error,
    >)
        requires
            old(cursor).wf(),
        ensures
            final(cursor).wf(),
            final(cursor).data == old(cursor).data,
            match spec_parse_header(old(cursor).rest()) {
                HeaderParse::Incomplete => r matches Ok(o) && o is None && final(cursor).pos >= old(
                    cursor,
                ).pos,
                HeaderParse::BadOpcode(n) => r matches Err(e) && e == spec_bad_opcode_error(n),
                HeaderParse::Done(h, length, consumed) => r matches Ok(o) && o == Some(
                    (h, length),
                ) && final(cursor).pos == old(cursor).pos + consumed,
            },
    {
        let ghost s = cursor.rest();
        let pos = cursor.position();
        let dlen = cursor.data.len();
        let rem = cursor.remaining();
        if rem < 2 {
            return Ok(None);
        }
        let a = cursor.data[pos];
        let b = cursor.data[pos + 1];
        assert(a == s[0] && b == s[1]);
        let lb = b & 0x7F;
        let ext: usize = if lb == 126 {
            2
        } else if lb == 127 {
            8
        } else {
            0
        };
        if rem < 2 + ext {
            return Ok(None);
        }
        let length: u64 = if lb == 126 {
            let b2 = cursor.data[pos + 2];
            let b3 = cursor.data[pos + 3];
            assert(b2 == s[2] && b3 == s[3]);
            ((b2 as u64) << 8) | (b3 as u64)
        } else if lb == 127 {
            let b2 = cursor.data[pos + 2];
            let b3 = cursor.data[pos + 3];
            let b4 = cursor.data[pos + 4];
            let b5 = cursor.data[pos + 5];
            let b6 = cursor.data[pos + 6];
            let b7 = cursor.data[pos + 7];
            let b8 = cursor.data[pos + 8];
            let b9 = cursor.data[pos + 9];
            assert(b2 == s[2] && b3 == s[3] && b4 == s[4] && b5 == s[5] && b6 == s[6] && b7 == s[7]
                && b8 == s[8] && b9 == s[9]);
            assert(s.subrange(2, 10) =~= seq![s[2], s[3], s[4], s[5], s[6], s[7], s[8], s[9]]);
            ((b2 as u64) << 56) | ((b3 as u64) << 48) | ((b4 as u64) << 40) | ((b5 as u64) << 32)
                | ((b6 as u64) << 24) | ((b7 as u64) << 16) | ((b8 as u64) << 8) | (b9 as u64)
        } else {
            lb as u64
        };
        let masked = b & 0x80 != 0;
        if masked && rem < 2 + ext + 4 {
            return Ok(None);
        }
        let nibble = a & 0x0F;
        assert(nibble < 16) by (bit_vector)
            requires
                nibble == a & 0x0F,
        ;
        let opcode = OpCode::from_u8(nibble);
        if matches!(opcode, OpCode::Control(crate::opcode::Control::Reserved(_))) {
            return Err(Error::Protocol(ProtocolError::UnknownControlOpCode(nibble)));
        }
        if matches!(opcode, OpCode::Data(crate::opcode::Data::Reserved(_))) {
            return Err(Error::Protocol(ProtocolError::UnknownDataOpCode(nibble)));
        }
        proof {
            if opcode.spec_is_reserved() {
                assert(false);
            }
            if 3 <= nibble && nibble <= 7 {
                assert(OpCode::spec_from_u8(nibble).spec_is_reserved());
            }
            if 0xB <= nibble && nibble <= 0xF {
                assert(OpCode::spec_from_u8(nibble).spec_is_reserved());
            }
        }
        let mask: Option<MaskKey> = if masked {
            let m = MaskKey {
                b0: cursor.data[pos + 2 + ext],
                b1: cursor.data[pos + 2 + ext + 1],
                b2: cursor.data[pos + 2 + ext + 2],
                b3: cursor.data[pos + 2 + ext + 3],
            };
            assert(m.b0 == s[2 + ext] && m.b1 == s[2 + ext + 1] && m.b2 == s[2 + ext + 2] && m.b3
                == s[2 + ext + 3]);
            Some(m)
        } else {
            None
        };
        let consumed = 2 + ext + (if masked {
            4
        } else {
            0
        });
        cursor.set_position(pos + consumed);
        let header = FrameHeader {
            fin: a & 0x80 != 0,
            rsv1: a & 0x40 != 0,
            rsv2: a & 0x20 != 0,
            rsv3: a & 0x10 != 0,
            opcode,
            mask,
        };
        Ok(Some((header, length)))
    }
}

/// A successful header parse consumes at least the two base bytes and
/// never more than what is there.
pub proof fn lemma_parse_done_consumed(s: Seq<u8>)
    ensures
        spec_parse_header(s) matches HeaderParse::Done(h, l, c) ==> 2 <= c <= s.len(),
{
}

/// Formatting a header and parsing it back yields the same header, the
/// same announced length, and consumes exactly the header bytes, whatever
/// bytes follow.
pub proof fn lemma_header_round_trip(h: FrameHeader, length: u64, tail: Seq<u8>)
    requires
        h.opcode.is_wire_form(),
        !h.opcode.spec_is_reserved(),
    ensures
        spec_parse_header(spec_format_header(h, length) + tail) == HeaderParse::Done(
            h,
            length,
            spec_format_header(h, length).len() as int,
        ),
{
    let s = spec_format_header(h, length) + tail;
    let hl = spec_format_header(h, length).len() as int;
    let o = h.opcode.spec_to_u8();
    h.opcode.lemma_opcode_round_trip();
    let f = if h.fin {
        0x80u8
    } else {
        0u8
    };
    let r1 = if h.rsv1 {
        0x40u8
    } else {
        0u8
    };
    let r2 = if h.rsv2 {
        0x20u8
    } else {
        0u8
    };
    let r3 = if h.rsv3 {
        0x10u8
    } else {
        0u8
    };
    let a = spec_first_byte(h);
    assert(a == o | f | r1 | r2 | r3);
    assert((o < 16 && (f == 0 || f == 0x80) && (r1 == 0 || r1 == 0x40) && (r2 == 0 || r2 == 0x20)
        && (r3 == 0 || r3 == 0x10)) ==> (((o | f | r1 | r2 | r3) & 0x80 != 0) == (f == 0x80) && ((o
        | f | r1 | r2 | r3) & 0x40 != 0) == (r1 == 0x40) && ((o | f | r1 | r2 | r3) & 0x20 != 0) == (
    r2 == 0x20) && ((o | f | r1 | r2 | r3) & 0x10 != 0) == (r3 == 0x10) && ((o | f | r1 | r2 | r3)
        & 0x0F) == o)) by (bit_vector);
    let lb = Length::spec_for_len(length).spec_len_byte();
    let m = if h.mask is Some {
        0x80u8
    } else {
        0u8
    };
    let b = spec_second_byte(h, length);
    assert(b == lb | m);
    assert((lb <= 127 && (m == 0 || m == 0x80)) ==> (((lb | m) & 0x80 != 0) == (m == 0x80) && ((lb
        | m) & 0x7F) == lb)) by (bit_vector);
    assert(s[0] == a && s[1] == b);
    let ext: int = if lb == 126 {
        2
    } else if lb == 127 {
        8
    } else {
        0
    };
    assert(spec_len_ext(length).len() == ext);
    assert(spec_mask_bytes(h).len() == if h.mask is Some {
        4int
    } else {
        0int
    });
    assert(hl == 2 + ext + if h.mask is Some {
        4int
    } else {
        0int
    });
    // The announced length is recovered.
    if length < 126 {
        assert(lb == length as u8);
        assert((length < 126) ==> (((length as u8) as u64) == length && (length as u8) < 126))
            by (bit_vector);
    } else if length < 65536 {
        assert(lb == 126);
        assert(s[2] == (length >> 8) as u8 && s[3] == length as u8);
        assert((length < 65536) ==> spec_u16_of((length >> 8) as u8, length as u8) == length)
            by (bit_vector);
    } else {
        assert(lb == 127);
        assert(s[2] == (length >> 56) as u8 && s[3] == (length >> 48) as u8 && s[4] == (length
            >> 40) as u8 && s[5] == (length >> 32) as u8 && s[6] == (length >> 24) as u8 && s[7] == (
        length >> 16) as u8 && s[8] == (length >> 8) as u8 && s[9] == length as u8);
        assert(s.subrange(2, 10) =~= spec_be8(length));
        assert(spec_u64_of(spec_be8(length)) == length) by (bit_vector);
    }
    // The opcode is recovered.
    assert(OpCode::spec_from_u8((a & 0x0F) as u8) == h.opcode);
    // The mask is recovered.
    match h.mask {
        Some(k) => {
            assert(s[2 + ext] == k.b0 && s[2 + ext + 1] == k.b1 && s[2 + ext + 2] == k.b2 && s[2
                + ext + 3] == k.b3);
            assert(MaskKey { b0: s[2 + ext], b1: s[2 + ext + 1], b2: s[2 + ext + 2], b3: s[2 + ext
                + 3] } == k);
        },
        None => {},
    }
}

} // verus!
