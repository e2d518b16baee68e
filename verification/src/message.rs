//! Messages and their reassembly from fragments: the streaming UTF-8
//! collector for text, the plain accumulator for binary, and the
//! message type surfaced to the caller.
use vstd::prelude::*;
use crate::error::{CapacityError, Error};
use crate::frame::{CloseFrame, Frame};
use crate::utf8::{
    scan_utf8,
    spec_is_valid_stream,
    spec_is_valid_utf8,
    spec_partial_char_at,
    lemma_valid_utf8_append,
    Utf8Bytes,
    Utf8Scan,
};

verus! {

/// A streaming UTF-8 collector: complete validated bytes, plus at most
/// three bytes of a character that is still cut short.
#[derive(Debug)]
pub struct StringCollector {
    /// The validated complete bytes.
    pub data: Vec<u8>,
    /// The trailing bytes of a character that is not complete yet.
    pub pending: Vec<u8>,
}

impl StringCollector {
    /// The collector's invariant: the data is valid UTF-8, the pending
    /// bytes begin a single character, and the total size is addressable.
    pub open spec fn wf(&self) -> bool {
        spec_is_valid_utf8(self.data@) && (self.pending@.len() == 0 || spec_partial_char_at(
            self.pending@,
            0,
        )) && self.data@.len() + self.pending@.len() <= usize::MAX
    }

    /// All collected bytes, the cut-short character included.
    pub open spec fn bytes(&self) -> Seq<u8> {
        self.data@ + self.pending@
    }

    /// An empty collector.
    pub fn new() -> (r: Self)
        ensures
            r.wf(),
            r.bytes() == Seq::<u8>::empty(),
    {
        let r = StringCollector { data: Vec::new(), pending: Vec::new() };
        assert(r.bytes() =~= Seq::<u8>::empty());
        r
    }

    /// The number of collected bytes.
    pub fn len(&self) -> (r: usize)
        requires
            self.wf(),
        ensures
            r == self.bytes().len(),
    {
        self.data.len() + self.pending.len()
    }

    /// Take in the next chunk of the byte stream, validating it as it
    /// arrives. On an invalid sequence the collector is left unchanged.
    pub fn extend(&mut self, tail: &Vec<u8>) -> (r: Result<(), Error>)
        requires
            old(self).wf(),
            old(self).bytes().len() + tail@.len() <= usize::MAX,
        ensures
            final(self).wf(),
            match r {
                Ok(()) => final(self).bytes() == old(self).bytes() + tail@ && spec_is_valid_stream(
                    old(self).pending@ + tail@,
                ) && ((final(self).pending@.len() == 0) == spec_is_valid_utf8(
                    old(self).pending@ + tail@,
                )),
                Err(e) => e == Error::Utf8 && !spec_is_valid_stream(old(self).pending@ + tail@)
                    && *final(self) == *old(self),
            },
    {
        let mut combined: Vec<u8> = Vec::new();
        combined.extend_from_slice(self.pending.as_slice());
        combined.extend_from_slice(tail.as_slice());
        assert(combined@ =~= self.pending@ + tail@);
        match scan_utf8(&combined) {
            Utf8Scan::Complete => {
                proof {
                    lemma_valid_utf8_append(self.data@, combined@, 0);
                }
                self.data.extend_from_slice(combined.as_slice());
                self.pending = Vec::new();
                assert(self.data@ =~= old(self).data@ + combined@);
                assert(self.bytes() =~= old(self).bytes() + tail@);
                assert(spec_is_valid_utf8(self.data@));
                assert(spec_is_valid_utf8(old(self).pending@ + tail@));
                Ok(())
            },
            Utf8Scan::Partial(b) => {
                let mut head = combined;
                let rest = head.split_off(b);
                proof {
                    lemma_valid_utf8_append(self.data@, head@, 0);
                }
                self.data.extend_from_slice(head.as_slice());
                self.pending = rest;
                assert(self.data@ =~= old(self).data@ + head@);
                proof {
                    let c = old(self).pending@ + tail@;
                    assert(self.pending@ == c.skip(b as int));
                    assert(spec_partial_char_at(c, b as int));
                    assert forall|k: int| 0 <= k < c.len() - b implies c.skip(b as int)[k] == c[b
                        + k] by {}
                    assert(spec_partial_char_at(c.skip(b as int), 0));
                    assert(self.bytes() =~= old(self).bytes() + tail@);
                    assert(self.pending@.len() == c.len() - b);
                    assert(!spec_is_valid_utf8(c));
                }
                Ok(())
            },
            Utf8Scan::Invalid => Err(Error::Utf8),
        }
    }

    /// Finish collecting: the text is complete only if no character is
    /// cut short at its end.
    pub fn into_string(self) -> (r: Result<Utf8Bytes, Error>)
        requires
            self.wf(),
        ensures
            match r {
                Ok(u) => u.wf() && u@ == self.data@ && self.pending@.len() == 0,
                Err(e) => e == Error::Utf8 && self.pending@.len() > 0,
            },
    {
        if self.pending.len() > 0 {
            Err(Error::Utf8)
        } else {
            Ok(Utf8Bytes::from_vec_unchecked(self.data))
        }
    }
}

/// The kind of message being reassembled.
#[derive(Debug, Clone, Copy, PartialEq, Eq, Structural)]
pub enum IncompleteMessageType {
    /// A text message.
    Text,
    /// A binary message.
    Binary,
}

/// The accumulator behind an incomplete message.
#[derive(Debug)]
pub enum IncompleteMessageCollector {
    /// A text message being validated as it arrives.
    Text(StringCollector),
    /// A binary message accumulated as plain bytes.
    Binary(Vec<u8>),
}

/// A fragmented message that has not seen its final frame yet.
#[derive(Debug)]
pub struct IncompleteMessage {
    /// The accumulator for the payload collected so far.
    pub collector: IncompleteMessageCollector,
}

impl IncompleteMessage {
    /// The message's invariant.
    pub open spec fn wf(&self) -> bool {
        match self.collector {
            IncompleteMessageCollector::Text(ref t) => t.wf(),
            IncompleteMessageCollector::Binary(ref b) => b@.len() <= usize::MAX,
        }
    }

    /// The payload bytes collected so far.
    pub open spec fn bytes(&self) -> Seq<u8> {
        match self.collector {
            IncompleteMessageCollector::Text(ref t) => t.bytes(),
            IncompleteMessageCollector::Binary(ref b) => b@,
        }
    }

    /// Whether this is a text message.
    pub open spec fn is_text(&self) -> bool {
        self.collector is Text
    }

    /// The bytes of a character still cut short at the end of a text
    /// message; empty for binary messages.
    pub open spec fn pending(&self) -> Seq<u8> {
        match self.collector {
            IncompleteMessageCollector::Text(ref t) => t.pending@,
            IncompleteMessageCollector::Binary(_) => Seq::empty(),
        }
    }

    /// Start collecting a message of the given kind.
    pub fn new(msg_type: IncompleteMessageType) -> (r: Self)
        ensures
            r.wf(),
            r.bytes() == Seq::<u8>::empty(),
            r.is_text() == (msg_type == IncompleteMessageType::Text),
    {
        let r = IncompleteMessage {
            collector: match msg_type {
                IncompleteMessageType::Text => IncompleteMessageCollector::Text(
                    StringCollector::new(),
                ),
                IncompleteMessageType::Binary => IncompleteMessageCollector::Binary(Vec::new()),
            },
        };
        assert(r.bytes() =~= Seq::<u8>::empty());
        r
    }

    /// The current filled size of the buffer.
    pub fn len(&self) -> (r: usize)
        requires
            self.wf(),
        ensures
            r == self.bytes().len(),
    {
        match &self.collector {
            IncompleteMessageCollector::Text(t) => t.len(),
            IncompleteMessageCollector::Binary(b) => b.len(),
        }
    }

    /// Checks if the incomplete message is empty.
    pub fn is_empty(&self) -> (r: bool)
        requires
            self.wf(),
        ensures
            r == (self.bytes().len() == 0),
    {
        self.len() == 0
    }

    /// Add the payload of one more fragment, enforcing the size limit
    /// before anything is stored: the limit, when there is one, bounds
    /// what a message can grow to.
    pub fn extend(&mut self, tail: &Vec<u8>, limit: Option<usize>) -> (r: Result<(), Error>)
        requires
            old(self).wf(),
        ensures
            final(self).wf(),
            final(self).is_text() == old(self).is_text(),
            ({
                let max: int = match limit {
                    Some(m) => m as int,
                    None => usize::MAX as int,
                };
                match r {
                    Ok(()) => old(self).bytes().len() + tail@.len() <= max && final(self).bytes()
                        == old(self).bytes() + tail@ && final(self).bytes().len() <= max && (old(self).is_text() ==> spec_is_valid_stream(old(self).pending() + tail@) && ((final(self).pending().len() == 0) == spec_is_valid_utf8(old(self).pending() + tail@)))
                        && (!old(self).is_text() ==> final(self).pending().len() == 0),
                    Err(e) => match e {
                        Error::Capacity(CapacityError::MessageTooLarge { size, max: m }) => old(self).bytes().len() + tail@.len() > max && m == max && size == (if old(self).bytes().len() + tail@.len() <= usize::MAX {
                            (old(self).bytes().len() + tail@.len()) as int
                        } else {
                            usize::MAX as int
                        }) && *final(self) == *old(self),
                        Error::Utf8 => old(self).bytes().len() + tail@.len() <= max && old(self).is_text() && !spec_is_valid_stream(old(self).pending() + tail@) && *final(self) == *old(self),
                        _ => false,
                    },
                }
            }),
    {
        let max = match limit {
            Some(m) => m,
            None => usize::MAX,
        };
        let size = self.len();
        let portion = tail.len();
        if size > max || portion > max - size {
            let total: usize = if portion > usize::MAX - size {
                usize::MAX
            } else {
                size + portion
            };
            return Err(Error::Capacity(CapacityError::MessageTooLarge { size: total, max }));
        }
        match &mut self.collector {
            IncompleteMessageCollector::Binary(b) => {
                b.extend_from_slice(tail.as_slice());
                Ok(())
            },
            IncompleteMessageCollector::Text(t) => t.extend(tail),
        }
    }

    /// Convert an incomplete message into a complete one.
    pub fn complete(self) -> (r: Result<Message, Error>)
        requires
            self.wf(),
        ensures
            match r {
                Ok(m) => if self.is_text() {
                    m matches Message::Text(u) && u@ == self.bytes() && self.pending().len() == 0
                } else {
                    m matches Message::Binary(b) && b@ == self.bytes()
                },
                Err(e) => e == Error::Utf8 && self.is_text() && self.pending().len() > 0,
            },
    {
        match self.collector {
            IncompleteMessageCollector::Binary(b) => Ok(Message::Binary(b)),
            IncompleteMessageCollector::Text(t) => {
                match t.into_string() {
                    Ok(u) => {
                        proof {
                            assert(t.bytes() =~= t.data@);
                        }
                        Ok(Message::Text(u))
                    },
                    Err(e) => Err(e),
                }
            },
        }
    }
}

/// A WebSocket message.
#[derive(Debug, Clone, PartialEq, Eq)]
pub enum Message {
    /// A text message.
    Text(Utf8Bytes),
    /// A binary message.
    Binary(Vec<u8>),
    /// A ping (control) message.
    Ping(Vec<u8>),
    /// A pong (control) message.
    Pong(Vec<u8>),
    /// A close (control) message.
    Close(Option<CloseFrame>),
    /// A raw frame.
    Frame(Frame),
}

impl Message {
    /// Create a new text message.
    pub fn new_text(string: Utf8Bytes) -> (r: Message)
        ensures
            r == Message::Text(string),
    {
        Message::Text(string)
    }

    /// Create a new binary message.
    pub fn new_binary(binary: Vec<u8>) -> (r: Message)
        ensures
            r == Message::Binary(binary),
    {
        Message::Binary(binary)
    }

    /// Whether the message belongs to the control protocol.
    pub fn is_control(&self) -> (r: bool)
        ensures
            r == (self matches Message::Ping(_) || self matches Message::Pong(_) || self matches
                Message::Close(_)),
    {
        matches!(self, Message::Ping(_) | Message::Pong(_) | Message::Close(_))
    }

    /// Whether the message belongs to the data protocol.
    pub fn is_data(&self) -> (r: bool)
        ensures
            r == (self matches Message::Text(_) || self matches Message::Binary(_)),
    {
        matches!(self, Message::Text(_) | Message::Binary(_))
    }

    /// Whether the message is text.
    pub fn is_text(&self) -> (r: bool)
        ensures
            r == (self matches Message::Text(_)),
    {
        matches!(self, Message::Text(_))
    }

    /// Whether the message is binary.
    pub fn is_binary(&self) -> (r: bool)
        ensures
            r == (self matches Message::Binary(_)),
    {
        matches!(self, Message::Binary(_))
    }

    /// The payload carried by the message.
    pub open spec fn spec_data(self) -> Seq<u8> {
        match self {
            Message::Text(u) => u@,
            Message::Binary(b) => b@,
            Message::Ping(b) => b@,
            Message::Pong(b) => b@,
            Message::Close(None) => Seq::empty(),
            Message::Close(Some(cf)) => cf.reason@,
            Message::Frame(f) => f.payload@,
        }
    }

    /// The length of the message payload.
    pub fn len(&self) -> (r: usize)
        ensures
            r == self.spec_data().len(),
    {
        match self {
            Message::Text(u) => u.len(),
            Message::Binary(b) => b.len(),
            Message::Ping(b) => b.len(),
            Message::Pong(b) => b.len(),
            Message::Close(None) => 0,
            Message::Close(Some(cf)) => cf.reason.len(),
            Message::Frame(f) => f.payload.len(),
        }
    }

    /// Whether the message has no content.
    pub fn is_empty(&self) -> (r: bool)
        ensures
            r == (self.spec_data().len() == 0),
    {
        self.len() == 0
    }

    /// Consume the message into its payload.
    pub fn into_data(self) -> (r: Vec<u8>)
        ensures
            r@ == self.spec_data(),
    {
        match self {
            Message::Text(u) => u.into_vec(),
            Message::Binary(b) => b,
            Message::Ping(b) => b,
            Message::Pong(b) => b,
            Message::Close(None) => {
                let empty: Vec<u8> = Vec::new();
                empty
            },
            Message::Close(Some(cf)) => cf.reason.into_vec(),
            Message::Frame(f) => f.into_payload(),
        }
    }
}

} // verus!
