//! The role-neutral handshake machine: a three-state reader/writer/flusher
//! driven by transport events, with an abuse detector on the read side.
use vstd::prelude::*;
use crate::error::{Error, ProtocolError};

verus! {

/// Abort the handshake once this many bytes were read.
pub const MAX_HANDSHAKE_BYTES: usize = 65536;

/// Abort the handshake once this many reads were made.
pub const MAX_HANDSHAKE_PACKETS: usize = 512;

/// Reads whose average size is below this many bytes look like a drip.
pub const MIN_PACKET_SIZE: usize = 128;

/// The average-size rule applies only after this many reads.
pub const MIN_PACKET_CHECK_THRESHOLD: usize = 64;

/// Attack mitigation for the handshake: refuse a peer that drips its
/// message one small read at a time, or that never ends it.
#[derive(Debug, Clone, Copy)]
pub struct AttackCheck {
    /// Number of successful reads so far.
    pub packets: usize,
    /// Total number of bytes read so far.
    pub bytes: usize,
}

/// Whether the abuse thresholds are breached with the given counters.
pub open spec fn spec_attack(packets: int, bytes: int) -> bool {
    bytes > MAX_HANDSHAKE_BYTES || packets > MAX_HANDSHAKE_PACKETS || (packets
        > MIN_PACKET_CHECK_THRESHOLD && packets * MIN_PACKET_SIZE > bytes)
}

impl AttackCheck {
    /// Counters of a check that has not fired are under the thresholds.
    pub open spec fn wf(&self) -> bool {
        self.packets <= MAX_HANDSHAKE_PACKETS && self.bytes <= MAX_HANDSHAKE_BYTES
    }

    /// Initialize attack checking for an incoming buffer.
    pub fn new() -> (r: Self)
        ensures
            r.packets == 0,
            r.bytes == 0,
            r.wf(),
    {
        AttackCheck { packets: 0, bytes: 0 }
    }

    /// Account one read of `size` bytes and fail if the thresholds are
    /// breached.
    pub fn check_incoming_packet(&mut self, size: usize) -> (r: Result<(), Error>)
        requires
            old(self).wf(),
            size <= usize::MAX - MAX_HANDSHAKE_BYTES,
        ensures
            final(self).packets == old(self).packets + 1,
            final(self).bytes == old(self).bytes + size,
            match r {
                Ok(()) => !spec_attack(final(self).packets as int, final(self).bytes as int)
                    && final(self).wf(),
                Err(e) => e == Error::AttackAttempt && spec_attack(
                    final(self).packets as int,
                    final(self).bytes as int,
                ),
            },
    {
        self.packets = self.packets + 1;
        self.bytes = self.bytes + size;
        if self.bytes > MAX_HANDSHAKE_BYTES || self.packets > MAX_HANDSHAKE_PACKETS || (
        self.packets > MIN_PACKET_CHECK_THRESHOLD && self.packets * MIN_PACKET_SIZE > self.bytes) {
            return Err(Error::AttackAttempt);
        }
        Ok(())
    }
}

/// A parse-able handshake object.
pub trait TryParse: Sized {
    /// What parsing the object from the front of given bytes yields:
    /// each implementation states its own grammar here.
    spec fn spec_parse_matches(data: Seq<u8>, r: Result<Option<(usize, Self)>, Error>) -> bool;

    /// Parse one complete object from the front of the accumulated
    /// bytes: `Ok(None)` when more bytes are needed, `Err` on a syntax
    /// error, else the object and how many bytes it took.
    fn try_parse(data: &Vec<u8>) -> (r: Result<Option<(usize, Self)>, Error>)
        ensures
            Self::spec_parse_matches(data@, r),
            (match r {
                Ok(Some((n, _))) => n <= data@.len(),
                _ => true,
            }),
    ;
}

/// The state of the handshake machine.
#[derive(Debug)]
pub enum HandshakeState {
    /// Reading the peer's message into an accumulator.
    Reading(Vec<u8>, AttackCheck),
    /// Writing our own message: the bytes and how many are written.
    Writing(Vec<u8>, usize),
    /// Driving the stream's flush to completion.
    Flushing,
}

/// What the driver observed on the transport, handed to `single_round`:
/// one event per round, matching what the machine asked for.
#[derive(Debug)]
pub enum IoEvent {
    /// A read returned these bytes (empty means end of stream).
    Read(Vec<u8>),
    /// A read would have blocked.
    ReadWouldBlock,
    /// A write accepted this many bytes.
    Wrote(usize),
    /// A write would have blocked.
    WriteWouldBlock,
    /// A flush completed.
    Flushed,
    /// A flush would have blocked.
    FlushWouldBlock,
}

/// What the machine asks the driver to do next.
#[derive(Debug, PartialEq, Eq, Clone, Copy, Structural)]
pub enum IoRequest {
    /// Read from the stream.
    NeedsRead,
    /// Write the machine's pending bytes to the stream.
    NeedsWrite,
    /// Flush the stream.
    NeedsFlush,
}

/// The result of one round.
#[derive(Debug)]
pub enum RoundResult<Obj> {
    /// Round not done: the transport would block; hand the machine back.
    WouldBlock(HandshakeMachine),
    /// Round done, stage unchanged; drive the machine again.
    Incomplete(HandshakeMachine),
    /// Stage complete.
    StageFinished(StageResult<Obj>),
}

/// The result of a finished stage.
#[derive(Debug)]
pub enum StageResult<Obj> {
    /// Reading finished: the parsed object and any bytes past its end.
    DoneReading {
        /// The parsed object.
        result: Obj,
        /// The bytes read past the end of the object.
        tail: Vec<u8>,
    },
    /// Writing and flushing finished.
    DoneWriting,
}

/// A generic handshake state machine, driven by transport events.
#[derive(Debug)]
pub struct HandshakeMachine {
    /// The machine state.
    pub state: HandshakeState,
}

impl HandshakeMachine {
    /// The machine invariant: the reading counters are under the
    /// thresholds and count the accumulated bytes; a writer always has
    /// bytes left.
    pub open spec fn wf(&self) -> bool {
        match self.state {
            HandshakeState::Reading(buf, check) => check.wf() && check.bytes == buf@.len(),
            HandshakeState::Writing(data, pos) => pos < data@.len(),
            HandshakeState::Flushing => true,
        }
    }

    /// Whether the given event answers what the machine asked for.
    pub open spec fn spec_event_matches(&self, event: IoEvent) -> bool {
        match self.state {
            HandshakeState::Reading(_, _) => (event matches IoEvent::Read(c) && c@.len()
                <= usize::MAX - MAX_HANDSHAKE_BYTES) || event is ReadWouldBlock,
            HandshakeState::Writing(data, pos) => (event matches IoEvent::Wrote(n) && 1 <= n
                <= data@.len() - pos) || event is WriteWouldBlock,
            HandshakeState::Flushing => event is Flushed || event is FlushWouldBlock,
        }
    }

    /// Start reading data from the peer.
    pub fn start_read() -> (r: Self)
        ensures
            r.wf(),
            r.state matches HandshakeState::Reading(buf, check) && buf@.len() == 0 && check.packets
                == 0 && check.bytes == 0,
    {
        HandshakeMachine { state: HandshakeState::Reading(Vec::new(), AttackCheck::new()) }
    }

    /// Start writing data to the peer.
    pub fn start_write(data: Vec<u8>) -> (r: Self)
        requires
            data@.len() > 0,
        ensures
            r.wf(),
            r.state matches HandshakeState::Writing(d, pos) && d == data && pos == 0,
    {
        HandshakeMachine { state: HandshakeState::Writing(data, 0) }
    }

    /// What the driver should do next.
    pub fn wants(&self) -> (r: IoRequest)
        ensures
            r == (match self.state {
                HandshakeState::Reading(_, _) => IoRequest::NeedsRead,
                HandshakeState::Writing(_, _) => IoRequest::NeedsWrite,
                HandshakeState::Flushing => IoRequest::NeedsFlush,
            }),
    {
        match &self.state {
            HandshakeState::Reading(_, _) => IoRequest::NeedsRead,
            HandshakeState::Writing(_, _) => IoRequest::NeedsWrite,
            HandshakeState::Flushing => IoRequest::NeedsFlush,
        }
    }

    /// The bytes still to be written, when the machine is writing.
    pub fn pending_output(&self) -> (r: Vec<u8>)
        requires
            self.wf(),
        ensures
            match self.state {
                HandshakeState::Writing(data, pos) => r@ == data@.skip(pos as int),
                _ => r@.len() == 0,
            },
    {
        match &self.state {
            HandshakeState::Writing(data, pos) => {
                let mut r: Vec<u8> = Vec::new();
                let n = data.len();
                let mut i: usize = *pos;
                while i < n
                    invariant
                        *pos <= i <= n,
                        n == data@.len(),
                        r@ =~= data@.subrange(*pos as int, i as int),
                    decreases n - i,
                {
                    r.push(data[i]);
                    i += 1;
                }
                assert(r@ =~= data@.skip(*pos as int));
                r
            },
            _ => Vec::new(),
        }
    }

    /// How one round's outcome relates to the machine state and the
    /// transport event, for each of the three stages.
    pub open spec fn spec_round_rel<Obj: TryParse>(
        self,
        event: IoEvent,
        r: Result<RoundResult<Obj>, Error>,
    ) -> bool {
        &&& (self.state matches HandshakeState::Reading(b0, c0) ==> (match event {
                IoEvent::Read(chunk) => {
                    &&& (chunk@.len() == 0 ==> r == Err::<RoundResult<Obj>, Error>(
                        Error::Protocol(ProtocolError::IncompleteHandshake),
                    ))
                    &&& (chunk@.len() > 0 && spec_attack(
                        c0.packets + 1,
                        c0.bytes + chunk@.len(),
                    ) ==> r == Err::<RoundResult<Obj>, Error>(Error::AttackAttempt))
                    &&& (chunk@.len() > 0 && !spec_attack(c0.packets + 1, c0.bytes + chunk@.len())
                        ==> (match r {
                        Ok(RoundResult::Incomplete(m)) => m.state matches HandshakeState::Reading(
                            b1,
                            c1,
                        ) && b1@ == b0@ + chunk@ && c1.packets == c0.packets + 1 && c1.bytes
                            == c0.bytes + chunk@.len() && Obj::spec_parse_matches(
                            b0@ + chunk@,
                            Ok(None),
                        ),
                        Ok(RoundResult::StageFinished(s)) => s matches StageResult::DoneReading {
                            result,
                            tail,
                        } && exists|n: usize|
                            #![trigger (b0@ + chunk@).skip(n as int)]
                            {
                                &&& 0 <= n <= b0@.len() + chunk@.len()
                                &&& Obj::spec_parse_matches(b0@ + chunk@, Ok(Some((n, result))))
                                &&& tail@ == (b0@ + chunk@).skip(n as int)
                            },
                        Ok(RoundResult::WouldBlock(_)) => false,
                        Err(e) => Obj::spec_parse_matches(b0@ + chunk@, Err(e)),
                    }))
                },
                _ => r matches Ok(rr) && rr matches RoundResult::WouldBlock(m) && m.state matches
                    HandshakeState::Reading(b1, c1) && b1 == b0 && c1 == c0,
            }))
        &&& (self.state matches HandshakeState::Writing(d0, p0) ==> (match event {
                IoEvent::Wrote(n) => r matches Ok(rr) && rr matches RoundResult::Incomplete(m) && (
                if p0 + n < d0@.len() {
                    m.state matches HandshakeState::Writing(d1, p1) && d1 == d0 && p1 == p0 + n
                } else {
                    m.state is Flushing
                }),
                _ => r matches Ok(rr) && rr matches RoundResult::WouldBlock(m) && m.state matches
                    HandshakeState::Writing(d1, p1) && d1 == d0 && p1 == p0,
            }))
        &&& (self.state is Flushing ==> (match event {
                IoEvent::Flushed => r matches Ok(rr) && rr matches RoundResult::StageFinished(s)
                    && s is DoneWriting,
                _ => r matches Ok(rr) && rr matches RoundResult::WouldBlock(m) && m.state
                    is Flushing,
            }))
    }

    /// Perform one round: feed the machine what the transport did.
    pub fn single_round<Obj: TryParse>(self, event: IoEvent) -> (r: Result<RoundResult<Obj>, Error>)
        requires
            self.wf(),
            self.spec_event_matches(event),
        ensures
            match r {
                Ok(RoundResult::WouldBlock(m)) => m.wf(),
                Ok(RoundResult::Incomplete(m)) => m.wf(),
                _ => true,
            },
            self.spec_round_rel(event, r),
    {
        match self.state {
            HandshakeState::Reading(buf, check) => {
                match event {
                    IoEvent::Read(chunk) => {
                        if chunk.len() == 0 {
                            return Err(Error::Protocol(ProtocolError::IncompleteHandshake));
                        }
                        let mut buf = buf;
                        let mut check = check;
                        let ghost b0 = buf@;
                        match check.check_incoming_packet(chunk.len()) {
                            Ok(()) => {},
                            Err(e) => {
                                return Err(e);
                            },
                        }
                        buf.extend_from_slice(chunk.as_slice());
                        assert(buf@ =~= b0 + chunk@);
                        match Obj::try_parse(&buf) {
                            Err(e) => Err(e),
                            Ok(Some((size, obj))) => {
                                proof {
                                    assert(Obj::spec_parse_matches(
                                        b0 + chunk@,
                                        Ok(Some((size, obj))),
                                    ));
                                }
                                let tail = buf.split_off(size);
                                assert(tail@ == (b0 + chunk@).skip(size as int));
                                Ok(
                                    RoundResult::StageFinished(
                                        StageResult::DoneReading { result: obj, tail },
                                    ),
                                )
                            },
                            Ok(None) => Ok(
                                RoundResult::Incomplete(
                                    HandshakeMachine { state: HandshakeState::Reading(buf, check) },
                                ),
                            ),
                        }
                    },
                    _ => Ok(
                        RoundResult::WouldBlock(
                            HandshakeMachine { state: HandshakeState::Reading(buf, check) },
                        ),
                    ),
                }
            },
            HandshakeState::Writing(data, pos) => {
                match event {
                    IoEvent::Wrote(n) => {
                        let dl = data.len();
                        assert(pos + n <= dl);
                        let new_pos = pos + n;
                        if new_pos < dl {
                            Ok(
                                RoundResult::Incomplete(
                                    HandshakeMachine {
                                        state: HandshakeState::Writing(data, new_pos),
                                    },
                                ),
                            )
                        } else {
                            Ok(
                                RoundResult::Incomplete(
                                    HandshakeMachine { state: HandshakeState::Flushing },
                                ),
                            )
                        }
                    },
                    _ => Ok(
                        RoundResult::WouldBlock(
                            HandshakeMachine { state: HandshakeState::Writing(data, pos) },
                        ),
                    ),
                }
            },
            HandshakeState::Flushing => {
                match event {
                    IoEvent::Flushed => Ok(RoundResult::StageFinished(StageResult::DoneWriting)),
                    _ => Ok(
                        RoundResult::WouldBlock(
                            HandshakeMachine { state: HandshakeState::Flushing },
                        ),
                    ),
                }
            },
        }
    }
}

} // verus!
