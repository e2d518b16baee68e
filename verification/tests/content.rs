//! Tests of the content layers: UTF-8 validation, message reassembly,
//! HTTP message handling, compression helpers, and the standalone frame
//! reader and writer.
use blitz::basic::{try_websocket_upgrade, OpCode as BasicOpCode, WebSocketFrame};
use blitz::buffer::{ByteCursor, ReadBuffer};
use blitz::compression::{compress, decompress, Compressor, Decompressor};
use blitz::error::Error;
use blitz::http::{HttpMethod, HttpRequest};
use blitz::message::{IncompleteMessage, IncompleteMessageType, Message, StringCollector};
use blitz::utf8::{is_valid_utf8, scan_utf8, Utf8Bytes, Utf8Scan};

#[test]
fn utf8_validation_accepts_and_rejects() {
    assert!(is_valid_utf8(&b"plain ascii".to_vec()));
    assert!(is_valid_utf8(&"héllo wörld \u{1F600}".as_bytes().to_vec()));
    assert!(is_valid_utf8(&Vec::new()));
    // lone continuation byte
    assert!(!is_valid_utf8(&vec![0x80]));
    // overlong encoding of '/'
    assert!(!is_valid_utf8(&vec![0xC0, 0xAF]));
    // encoded surrogate
    assert!(!is_valid_utf8(&vec![0xED, 0xA0, 0x80]));
    // past U+10FFFF
    assert!(!is_valid_utf8(&vec![0xF5, 0x80, 0x80, 0x80]));
    // truncated two-byte character
    assert!(!is_valid_utf8(&vec![0xC3]));
}

#[test]
fn utf8_scan_classifies_chunks() {
    assert!(matches!(scan_utf8(&b"abc".to_vec()), Utf8Scan::Complete));
    // 'é' cut in half: valid up to index 1
    assert!(matches!(scan_utf8(&vec![b'a', 0xC3]), Utf8Scan::Partial(1)));
    assert!(matches!(scan_utf8(&vec![0xFF]), Utf8Scan::Invalid));
}

#[test]
fn utf8_bytes_checks_on_construction() {
    assert!(Utf8Bytes::from_vec(b"ok".to_vec()).is_ok());
    assert!(matches!(Utf8Bytes::from_vec(vec![0xFF]), Err(Error::Utf8)));
    let u = Utf8Bytes::from_vec(b"abc".to_vec()).unwrap();
    assert_eq!(u.len(), 3);
    assert!(!u.is_empty());
    assert_eq!(u.into_vec(), b"abc".to_vec());
}

#[test]
fn string_collector_streams_across_code_points() {
    let mut sc = StringCollector::new();
    sc.extend(&vec![b'h', 0xC3]).unwrap();
    assert_eq!(sc.len(), 2);
    sc.extend(&vec![0xA9]).unwrap();
    let u = sc.into_string().unwrap();
    assert_eq!(u.as_bytes(), &"h\u{e9}".as_bytes().to_vec());
}

#[test]
fn string_collector_rejects_invalid_bytes_at_once() {
    let mut sc = StringCollector::new();
    assert!(matches!(sc.extend(&vec![b'a', 0xFF]), Err(Error::Utf8)));
}

#[test]
fn string_collector_rejects_trailing_incomplete_character() {
    let mut sc = StringCollector::new();
    sc.extend(&vec![0xC3]).unwrap();
    assert!(matches!(sc.into_string(), Err(Error::Utf8)));
}

#[test]
fn incomplete_message_enforces_the_limit_before_storing() {
    let mut m = IncompleteMessage::new(IncompleteMessageType::Binary);
    m.extend(&vec![1, 2, 3], Some(5)).unwrap();
    assert_eq!(m.len(), 3);
    assert!(matches!(
        m.extend(&vec![4, 5, 6], Some(5)),
        Err(Error::Capacity(blitz::error::CapacityError::MessageTooLarge { size: 6, max: 5 }))
    ));
    // The failed extension stored nothing.
    assert_eq!(m.len(), 3);
    m.extend(&vec![4, 5], Some(5)).unwrap();
    match m.complete().unwrap() {
        Message::Binary(b) => assert_eq!(b, vec![1, 2, 3, 4, 5]),
        other => panic!("expected binary, got {:?}", other),
    }
}

#[test]
fn message_accessors() {
    let m = Message::new_text(Utf8Bytes::from_vec(b"hi".to_vec()).unwrap());
    assert!(m.is_text() && m.is_data() && !m.is_control());
    assert_eq!(m.len(), 2);
    assert!(!m.is_empty());
    assert_eq!(m.into_data(), b"hi".to_vec());
    let m = Message::new_binary(vec![1, 2, 3]);
    assert!(m.is_binary() && !m.is_control());
    let m = Message::Ping(Vec::new());
    assert!(m.is_control() && m.is_empty());
    assert_eq!(Message::Close(None).len(), 0);
}

#[test]
fn http_request_from_raw() {
    let raw = b"GET /path HTTP/1.1\r\nHost: example.com\r\nX-Extra: 1\r\n\r\nsome body".to_vec();
    let req = HttpRequest::from_raw(&raw).unwrap();
    assert_eq!(req.method, HttpMethod::GET);
    assert_eq!(req.path, b"/path".to_vec());
    assert_eq!(req.version, b"HTTP/1.1".to_vec());
    assert_eq!(req.headers.len(), 2);
    assert_eq!(req.body, Some(b"some body".to_vec()));

    let post = b"POST /p HTTP/1.1\r\nHost: x\r\n\r\n".to_vec();
    let req = HttpRequest::from_raw(&post).unwrap();
    assert_eq!(req.method, HttpMethod::POST);
    assert_eq!(req.body, None);

    let bad = b"FROB /p HTTP/1.1\r\n\r\n".to_vec();
    assert!(matches!(
        HttpRequest::from_raw(&bad),
        Err(blitz::http::HttpParseError::InvalidMethod)
    ));
    let bad = b"\r\n\r\n".to_vec();
    assert!(HttpRequest::from_raw(&bad).is_err());
}

#[test]
fn http_response_serialization() {
    let resp = blitz::http::HttpResponse {
        status_code: 101,
        reason_phrase: b"Switching Protocols".to_vec(),
        headers: vec![(b"Upgrade".to_vec(), b"websocket".to_vec())],
        body: None,
    };
    let text = resp.to_string();
    assert_eq!(text, "HTTP/1.1 101 Switching Protocols\r\nUpgrade: websocket\r\n\r\n");
    assert_eq!(resp.to_bytes(), text.as_bytes().to_vec());
}

#[test]
fn try_websocket_upgrade_builds_the_response() {
    let req = HttpRequest {
        method: HttpMethod::GET,
        path: b"/".to_vec(),
        version: b"HTTP/1.1".to_vec(),
        headers: vec![
            (b"Upgrade".to_vec(), b"websocket".to_vec()),
            (b"Connection".to_vec(), b"Upgrade".to_vec()),
            (b"Sec-WebSocket-Version".to_vec(), b" 13 ".to_vec()),
            (b"Sec-WebSocket-Key".to_vec(), b"dGhlIHNhbXBsZSBub25jZQ==".to_vec()),
        ],
        body: None,
    };
    let resp = try_websocket_upgrade(&req).unwrap();
    assert_eq!(resp.status_code, 101);
    assert_eq!(
        resp.get_header(&b"Sec-WebSocket-Accept".to_vec()).unwrap(),
        &b"s3pPLMBiTxaQ9kYGzzhZRbK+xOo=".to_vec()
    );

    let mut missing = req.clone();
    missing.headers.remove(3);
    assert!(matches!(
        try_websocket_upgrade(&missing),
        Err(blitz::basic::HandshakeError::MissingWebSocketKey)
    ));
}

#[test]
fn standalone_frame_round_trip() {
    let frame = WebSocketFrame {
        fin: true,
        opcode: BasicOpCode::Text,
        payload: b"standalone".to_vec(),
        is_masked: false,
        masking_key: None,
    };
    let mut wire = Vec::new();
    frame.write_to(&mut wire).unwrap();
    let mut cursor = ByteCursor::new(wire);
    let back = WebSocketFrame::read_from(&mut cursor).unwrap().unwrap();
    assert_eq!(back.fin, true);
    assert_eq!(back.opcode, BasicOpCode::Text);
    assert_eq!(back.payload, b"standalone".to_vec());
    assert!(!back.is_masked);
}

#[test]
fn standalone_frame_unmasks_incoming_payload() {
    // fin + text, masked, payload "ab" XORed with the key
    let key = [5u8, 6, 7, 8];
    let wire = vec![0x81, 0x82, 5, 6, 7, 8, b'a' ^ 5, b'b' ^ 6];
    let mut cursor = ByteCursor::new(wire);
    let frame = WebSocketFrame::read_from(&mut cursor).unwrap().unwrap();
    assert!(frame.is_masked);
    assert_eq!(frame.payload, b"ab".to_vec());
    let k = frame.masking_key.unwrap();
    assert_eq!([k.b0, k.b1, k.b2, k.b3], key);
}

#[test]
fn compression_round_trip_and_real_shrinkage() {
    let data = vec![b'z'; 4096];
    let packed = compress(&data).unwrap();
    // The stream really was compressed, and carries the 4-byte trailer.
    assert!(packed.len() < data.len() / 4);
    assert_eq!(&packed[packed.len() - 4..], &[0x00, 0x00, 0xFF, 0xFF]);
    let unpacked = decompress(&packed).unwrap();
    assert_eq!(unpacked, data);

    let mut c = Compressor::new(false);
    let mut d = Decompressor::new(false);
    let packed = c.compress(&data).unwrap();
    assert!(packed.len() < data.len() / 4);
    let unpacked = d.decompress(&packed).unwrap();
    assert_eq!(unpacked, data);
}

#[test]
fn read_buffer_accumulates_and_advances() {
    let mut buf: ReadBuffer<4096> = ReadBuffer::new();
    assert_eq!(buf.read_from(&vec![1, 2, 3]), 3);
    assert_eq!(buf.read_from(&vec![4, 5]), 2);
    assert_eq!(buf.remaining(), 5);
    buf.advance(2);
    assert_eq!(buf.remaining(), 3);
    assert_eq!(buf.into_vec(), vec![3, 4, 5]);
}

#[test]
fn byte_cursor_restores_and_reads() {
    let mut cursor = ByteCursor::new(vec![9, 8, 7]);
    assert_eq!(cursor.read_byte(), Some(9));
    assert_eq!(cursor.position(), 1);
    assert_eq!(cursor.read_bytes(2), vec![8, 7]);
    assert_eq!(cursor.read_byte(), None);
    cursor.set_position(0);
    assert_eq!(cursor.remaining(), 3);
}
