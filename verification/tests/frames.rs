//! Frame codec tests: header length encodings, encode/parse round
//! trips, masking, and close frame payloads.
use blitz::buffer::ByteCursor;
use blitz::error::Error;
use blitz::frame::{CloseFrame, Frame};
use blitz::header::{FrameHeader, Length, MAX_HEADER_SIZE};
use blitz::mask::{apply_mask, MaskKey};
use blitz::opcode::{CloseCode, Control, Data, OpCode};
use blitz::utf8::Utf8Bytes;

fn plain_header(fin: bool, opcode: OpCode) -> FrameHeader {
    FrameHeader { fin, rsv1: false, rsv2: false, rsv3: false, opcode, mask: None }
}

#[test]
fn header_length_125_is_inline() {
    let h = plain_header(true, OpCode::Data(Data::Binary));
    let mut out = Vec::new();
    h.format(125, &mut out);
    assert_eq!(out.len(), 2);
    assert_eq!(out[1], 125);
    assert_eq!(h.len(125), 2);
    assert!(matches!(Length::for_len(125), Length::U8(125)));
}

#[test]
fn header_length_126_uses_16_bit_extension() {
    let h = plain_header(true, OpCode::Data(Data::Binary));
    let mut out = Vec::new();
    h.format(126, &mut out);
    assert_eq!(out.len(), 4);
    assert_eq!(out[1], 126);
    assert_eq!(&out[2..4], &[0, 126]);
    assert!(matches!(Length::for_len(126), Length::U16));
}

#[test]
fn header_length_65536_uses_64_bit_extension() {
    let h = plain_header(true, OpCode::Data(Data::Binary));
    let mut out = Vec::new();
    h.format(65536, &mut out);
    assert_eq!(out.len(), 10);
    assert_eq!(out[1], 127);
    assert_eq!(&out[2..10], &[0, 0, 0, 0, 0, 1, 0, 0]);
    assert!(matches!(Length::for_len(65536), Length::U64));
}

#[test]
fn max_header_size_is_14() {
    let h = FrameHeader {
        mask: Some(MaskKey { b0: 1, b1: 2, b2: 3, b3: 4 }),
        ..plain_header(true, OpCode::Data(Data::Binary))
    };
    assert_eq!(h.len(65536), MAX_HEADER_SIZE);
}

fn round_trip(opcode: OpCode, payload: &[u8]) {
    let frame = Frame::new(plain_header(true, opcode), payload.to_vec());
    let mut wire = Vec::new();
    frame.clone().into_buf(&mut wire);
    let mut cursor = ByteCursor::new(wire);
    let (h, len) = FrameHeader::parse(&mut cursor).unwrap().unwrap();
    assert_eq!(h, frame.header);
    assert_eq!(len as usize, payload.len());
    let body = cursor.read_bytes(len as usize);
    assert_eq!(body, payload.to_vec());
    assert_eq!(cursor.remaining(), 0);
}

#[test]
fn encode_parse_round_trip_small_payloads() {
    let payload = b"hello round trip";
    round_trip(OpCode::Data(Data::Text), payload);
    round_trip(OpCode::Data(Data::Binary), payload);
    round_trip(OpCode::Control(Control::Ping), payload);
    round_trip(OpCode::Control(Control::Pong), payload);
    round_trip(OpCode::Control(Control::Close), payload);
    round_trip(OpCode::Data(Data::Binary), &[]);
    round_trip(OpCode::Data(Data::Binary), &[0u8; 125]);
}

#[test]
fn masked_frame_emits_masked_payload() {
    let key = MaskKey { b0: 0x11, b1: 0x22, b2: 0x33, b3: 0x44 };
    let frame = Frame::new(
        FrameHeader { mask: Some(key), ..plain_header(true, OpCode::Data(Data::Binary)) },
        vec![1, 2, 3, 4, 5],
    );
    let mut wire = Vec::new();
    frame.into_buf(&mut wire);
    // 2 header bytes + 4 mask bytes + 5 payload bytes
    assert_eq!(wire.len(), 11);
    assert_eq!(&wire[2..6], &[0x11, 0x22, 0x33, 0x44]);
    let mut masked = wire[6..].to_vec();
    apply_mask(&mut masked, key);
    assert_eq!(masked, vec![1, 2, 3, 4, 5]);
}

#[test]
fn mask_applied_twice_restores_payload() {
    let key = MaskKey { b0: 9, b1: 8, b2: 7, b3: 6 };
    let original: Vec<u8> = (0..100).collect();
    let mut data = original.clone();
    apply_mask(&mut data, key);
    assert_ne!(data, original);
    apply_mask(&mut data, key);
    assert_eq!(data, original);
}

#[test]
fn close_frame_payload_layout() {
    let frame = Frame::new_close(Some(CloseFrame {
        code: CloseCode::Normal,
        reason: Utf8Bytes::from_vec(b"bye".to_vec()).unwrap(),
    }));
    assert_eq!(frame.payload, vec![0x03, 0xE8, b'b', b'y', b'e']);
    let back = frame.into_close().unwrap().unwrap();
    assert_eq!(back.code, CloseCode::Normal);
    assert_eq!(back.reason.as_bytes(), &b"bye".to_vec());
}

#[test]
fn close_frame_with_one_byte_payload_is_invalid() {
    let frame = Frame::new(plain_header(true, OpCode::Control(Control::Close)), vec![0x03]);
    assert!(matches!(
        frame.into_close(),
        Err(Error::Protocol(blitz::error::ProtocolError::InvalidCloseFrame))
    ));
}

#[test]
fn close_frame_with_invalid_utf8_reason_is_rejected() {
    let frame = Frame::new(
        plain_header(true, OpCode::Control(Control::Close)),
        vec![0x03, 0xE8, 0xFF, 0xFE],
    );
    assert!(matches!(frame.into_close(), Err(Error::Utf8)));
}

#[test]
fn close_code_conversions() {
    assert_eq!(CloseCode::from_u16(1000), CloseCode::Normal);
    assert_eq!(CloseCode::from_u16(1002), CloseCode::Protocol);
    assert_eq!(CloseCode::from_u16(1013), CloseCode::Again);
    assert_eq!(CloseCode::from_u16(3500), CloseCode::Iana(3500));
    assert_eq!(CloseCode::from_u16(4500), CloseCode::Library(4500));
    assert_eq!(CloseCode::from_u16(500), CloseCode::Bad(500));
    assert_eq!(CloseCode::Normal.to_u16(), 1000);
    assert!(CloseCode::Normal.allowed());
    assert!(CloseCode::Again.allowed());
    assert!(!CloseCode::Status.allowed());
    assert!(!CloseCode::Abnormal.allowed());
    assert!(!CloseCode::Tls.allowed());
    assert!(!CloseCode::Bad(500).allowed());
    assert!(!CloseCode::Reserved(1016).allowed());
}

#[test]
fn opcode_nibble_conversions() {
    for nibble in 0u8..16 {
        let op = OpCode::from_u8(nibble);
        assert_eq!(op.to_u8(), nibble);
    }
    assert_eq!(OpCode::from_u8(0x1), OpCode::Data(Data::Text));
    assert_eq!(OpCode::from_u8(0x8), OpCode::Control(Control::Close));
    assert_eq!(OpCode::from_u8(0x5), OpCode::Data(Data::Reserved(5)));
    assert_eq!(OpCode::from_u8(0xC), OpCode::Control(Control::Reserved(12)));
}

#[test]
fn parse_rejects_reserved_opcodes() {
    // fin + opcode 0x3 (reserved data), no mask, empty payload
    let mut cursor = ByteCursor::new(vec![0x83, 0x00]);
    assert!(matches!(
        FrameHeader::parse(&mut cursor),
        Err(Error::Protocol(blitz::error::ProtocolError::UnknownDataOpCode(3)))
    ));
    let mut cursor = ByteCursor::new(vec![0x8B, 0x00]);
    assert!(matches!(
        FrameHeader::parse(&mut cursor),
        Err(Error::Protocol(blitz::error::ProtocolError::UnknownControlOpCode(11)))
    ));
}

#[test]
fn parse_restores_position_on_short_input() {
    // announces a 16-bit length but the extension bytes are missing
    let mut cursor = ByteCursor::new(vec![0x82, 126, 0x01]);
    let parsed = FrameHeader::parse(&mut cursor).unwrap();
    assert!(parsed.is_none());
    assert_eq!(cursor.position(), 0);
}
