//! Opcodes and close codes defined by the WebSocket wire protocol.
use vstd::prelude::*;

verus! {

/// Data opcodes.
#[derive(Debug, PartialEq, Eq, Clone, Copy, Structural)]
pub enum Data {
    /// A continuation frame.
    Continuation,
    /// A text frame.
    Text,
    /// A binary frame.
    Binary,
    /// Reserved data opcodes 0x3-0x7.
    Reserved(u8),
}

/// Control opcodes.
#[derive(Debug, PartialEq, Eq, Clone, Copy, Structural)]
pub enum Control {
    /// A close frame.
    Close,
    /// A ping frame.
    Ping,
    /// A pong frame.
    Pong,
    /// Reserved control opcodes 0xB-0xF.
    Reserved(u8),
}

/// A WebSocket frame opcode.
#[derive(Debug, PartialEq, Eq, Clone, Copy, Structural)]
pub enum OpCode {
    /// Data (text or binary).
    Data(Data),
    /// Control (close, ping, pong).
    Control(Control),
}

impl OpCode {
    /// The wire nibble that encodes this opcode.
    pub open spec fn spec_to_u8(self) -> u8 {
        match self {
            OpCode::Data(Data::Continuation) => 0x0,
            OpCode::Data(Data::Text) => 0x1,
            OpCode::Data(Data::Binary) => 0x2,
            OpCode::Data(Data::Reserved(i)) => i,
            OpCode::Control(Control::Close) => 0x8,
            OpCode::Control(Control::Ping) => 0x9,
            OpCode::Control(Control::Pong) => 0xA,
            OpCode::Control(Control::Reserved(i)) => i,
        }
    }

    /// The opcode denoted by a wire nibble.
    pub open spec fn spec_from_u8(v: u8) -> OpCode {
        if v == 0x0 {
            OpCode::Data(Data::Continuation)
        } else if v == 0x1 {
            OpCode::Data(Data::Text)
        } else if v == 0x2 {
            OpCode::Data(Data::Binary)
        } else if v <= 0x7 {
            OpCode::Data(Data::Reserved(v))
        } else if v == 0x8 {
            OpCode::Control(Control::Close)
        } else if v == 0x9 {
            OpCode::Control(Control::Ping)
        } else if v == 0xA {
            OpCode::Control(Control::Pong)
        } else {
            OpCode::Control(Control::Reserved(v))
        }
    }

    /// An opcode round-trips through its nibble if it came off the wire.
    pub open spec fn is_wire_form(self) -> bool {
        match self {
            OpCode::Data(Data::Reserved(i)) => 0x3 <= i && i <= 0x7,
            OpCode::Control(Control::Reserved(i)) => 0xB <= i && i <= 0xF,
            _ => true,
        }
    }

    /// Convert to the wire nibble.
    pub fn to_u8(self) -> (r: u8)
        ensures
            r == self.spec_to_u8(),
    {
        match self {
            OpCode::Data(Data::Continuation) => 0x0,
            OpCode::Data(Data::Text) => 0x1,
            OpCode::Data(Data::Binary) => 0x2,
            OpCode::Data(Data::Reserved(i)) => i,
            OpCode::Control(Control::Close) => 0x8,
            OpCode::Control(Control::Ping) => 0x9,
            OpCode::Control(Control::Pong) => 0xA,
            OpCode::Control(Control::Reserved(i)) => i,
        }
    }

    /// Convert a wire nibble to an opcode.
    pub fn from_u8(v: u8) -> (r: OpCode)
        requires
            v < 16,
        ensures
            r == OpCode::spec_from_u8(v),
            r.is_wire_form(),
    {
        if v == 0x0 {
            OpCode::Data(Data::Continuation)
        } else if v == 0x1 {
            OpCode::Data(Data::Text)
        } else if v == 0x2 {
            OpCode::Data(Data::Binary)
        } else if v <= 0x7 {
            OpCode::Data(Data::Reserved(v))
        } else if v == 0x8 {
            OpCode::Control(Control::Close)
        } else if v == 0x9 {
            OpCode::Control(Control::Ping)
        } else if v == 0xA {
            OpCode::Control(Control::Pong)
        } else {
            OpCode::Control(Control::Reserved(v))
        }
    }

    /// True for the two reserved opcode bands.
    pub open spec fn spec_is_reserved(self) -> bool {
        match self {
            OpCode::Data(Data::Reserved(_)) => true,
            OpCode::Control(Control::Reserved(_)) => true,
            _ => false,
        }
    }

    /// A nibble round-trips through the opcode it denotes.
    pub proof fn lemma_u8_round_trip(v: u8)
        requires
            v < 16,
        ensures
            OpCode::spec_from_u8(v).spec_to_u8() == v,
    {
    }

    /// An opcode in wire form round-trips through its nibble.
    pub proof fn lemma_opcode_round_trip(self)
        requires
            self.is_wire_form(),
        ensures
            self.spec_to_u8() < 16,
            OpCode::spec_from_u8(self.spec_to_u8()) == self,
    {
    }
}

/// Status code carried by a close frame.
#[derive(Debug, PartialEq, Eq, Clone, Copy, Structural)]
pub enum CloseCode {
    /// 1000: normal closure.
    Normal,
    /// 1001: endpoint going away.
    Away,
    /// 1002: protocol error.
    Protocol,
    /// 1003: unsupported data.
    Unsupported,
    /// 1005: no status code present (synthetic, never transmitted).
    Status,
    /// 1006: abnormal closure (synthetic, never transmitted).
    Abnormal,
    /// 1007: invalid payload data.
    Invalid,
    /// 1008: policy violation.
    Policy,
    /// 1009: message too big.
    Size,
    /// 1010: missing extension (client only).
    Extension,
    /// 1011: unexpected server error.
    Error,
    /// 1012: server restarting.
    Restart,
    /// 1013: try again later.
    Again,
    /// 1015: TLS failure (synthetic, never transmitted).
    Tls,
    /// 1016-2999: reserved band.
    Reserved(u16),
    /// 3000-3999: IANA-registered band.
    Iana(u16),
    /// 4000-4999: library-private band.
    Library(u16),
    /// Everything else: never valid on the wire.
    Bad(u16),
}

impl CloseCode {
    /// The 16-bit value that encodes this close code.
    pub open spec fn spec_to_u16(self) -> u16 {
        match self {
            CloseCode::Normal => 1000,
            CloseCode::Away => 1001,
            CloseCode::Protocol => 1002,
            CloseCode::Unsupported => 1003,
            CloseCode::Status => 1005,
            CloseCode::Abnormal => 1006,
            CloseCode::Invalid => 1007,
            CloseCode::Policy => 1008,
            CloseCode::Size => 1009,
            CloseCode::Extension => 1010,
            CloseCode::Error => 1011,
            CloseCode::Restart => 1012,
            CloseCode::Again => 1013,
            CloseCode::Tls => 1015,
            CloseCode::Bad(v) => v,
            CloseCode::Reserved(v) => v,
            CloseCode::Iana(v) => v,
            CloseCode::Library(v) => v,
        }
    }

    /// The close code denoted by a 16-bit value.
    pub open spec fn spec_from_u16(v: u16) -> CloseCode {
        if v == 1000 {
            CloseCode::Normal
        } else if v == 1001 {
            CloseCode::Away
        } else if v == 1002 {
            CloseCode::Protocol
        } else if v == 1003 {
            CloseCode::Unsupported
        } else if v == 1005 {
            CloseCode::Status
        } else if v == 1006 {
            CloseCode::Abnormal
        } else if v == 1007 {
            CloseCode::Invalid
        } else if v == 1008 {
            CloseCode::Policy
        } else if v == 1009 {
            CloseCode::Size
        } else if v == 1010 {
            CloseCode::Extension
        } else if v == 1011 {
            CloseCode::Error
        } else if v == 1012 {
            CloseCode::Restart
        } else if v == 1013 {
            CloseCode::Again
        } else if v == 1015 {
            CloseCode::Tls
        } else if 1 <= v && v <= 999 {
            CloseCode::Bad(v)
        } else if 1016 <= v && v <= 2999 {
            CloseCode::Reserved(v)
        } else if 3000 <= v && v <= 3999 {
            CloseCode::Iana(v)
        } else if 4000 <= v && v <= 4999 {
            CloseCode::Library(v)
        } else {
            CloseCode::Bad(v)
        }
    }

    /// Convert to the 16-bit wire value.
    pub fn to_u16(self) -> (r: u16)
        ensures
            r == self.spec_to_u16(),
    {
        match self {
            CloseCode::Normal => 1000,
            CloseCode::Away => 1001,
            CloseCode::Protocol => 1002,
            CloseCode::Unsupported => 1003,
            CloseCode::Status => 1005,
            CloseCode::Abnormal => 1006,
            CloseCode::Invalid => 1007,
            CloseCode::Policy => 1008,
            CloseCode::Size => 1009,
            CloseCode::Extension => 1010,
            CloseCode::Error => 1011,
            CloseCode::Restart => 1012,
            CloseCode::Again => 1013,
            CloseCode::Tls => 1015,
            CloseCode::Bad(v) => v,
            CloseCode::Reserved(v) => v,
            CloseCode::Iana(v) => v,
            CloseCode::Library(v) => v,
        }
    }

    /// Convert a 16-bit wire value to a close code.
    pub fn from_u16(v: u16) -> (r: CloseCode)
        ensures
            r == CloseCode::spec_from_u16(v),
    {
        if v == 1000 {
            CloseCode::Normal
        } else if v == 1001 {
            CloseCode::Away
        } else if v == 1002 {
            CloseCode::Protocol
        } else if v == 1003 {
            CloseCode::Unsupported
        } else if v == 1005 {
            CloseCode::Status
        } else if v == 1006 {
            CloseCode::Abnormal
        } else if v == 1007 {
            CloseCode::Invalid
        } else if v == 1008 {
            CloseCode::Policy
        } else if v == 1009 {
            CloseCode::Size
        } else if v == 1010 {
            CloseCode::Extension
        } else if v == 1011 {
            CloseCode::Error
        } else if v == 1012 {
            CloseCode::Restart
        } else if v == 1013 {
            CloseCode::Again
        } else if v == 1015 {
            CloseCode::Tls
        } else if 1 <= v && v <= 999 {
            CloseCode::Bad(v)
        } else if 1016 <= v && v <= 2999 {
            CloseCode::Reserved(v)
        } else if 3000 <= v && v <= 3999 {
            CloseCode::Iana(v)
        } else if 4000 <= v && v <= 4999 {
            CloseCode::Library(v)
        } else {
            CloseCode::Bad(v)
        }
    }

    /// Whether this close code may be sent or accepted on the wire.
    pub open spec fn spec_allowed(self) -> bool {
        match self {
            CloseCode::Bad(_) => false,
            CloseCode::Reserved(_) => false,
            CloseCode::Status => false,
            CloseCode::Abnormal => false,
            CloseCode::Tls => false,
            _ => true,
        }
    }

    /// Check if this close code may be sent or accepted on the wire.
    pub fn allowed(self) -> (r: bool)
        ensures
            r == self.spec_allowed(),
    {
        !(matches!(self, CloseCode::Bad(_) | CloseCode::Reserved(_) | CloseCode::Status
            | CloseCode::Abnormal | CloseCode::Tls))
    }
}

} // verus!
