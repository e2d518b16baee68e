//! Session state machine tests: scenarios wiring two sessions together
//! by moving bytes, and the frame rules enforced on receipt.
use blitz::config::WebSocketConfig;
use blitz::error::{CapacityError, Error, FragmentType, ProtocolError};
use blitz::frame::{CloseFrame, Frame};
use blitz::opcode::{Data, OpCode};
use blitz::message::Message;
use blitz::opcode::CloseCode;
use blitz::utf8::Utf8Bytes;
use blitz::websocket::{OperationMode, WebSocketContext};

fn client() -> WebSocketContext {
    WebSocketContext::new(OperationMode::Client, None)
}

fn server() -> WebSocketContext {
    WebSocketContext::new(OperationMode::Server, None)
}

/// Move every pending byte from `from` to `to`.
fn pump(from: &mut WebSocketContext, to: &mut WebSocketContext) {
    let bytes = from.take_output();
    to.feed(&bytes);
}

fn text(s: &str) -> Message {
    Message::Text(Utf8Bytes::from_vec(s.as_bytes().to_vec()).unwrap())
}

#[test]
fn text_round_trip_client_to_server() {
    let mut c = client();
    let mut s = server();
    c.write(text("Hello, world!")).unwrap();
    c.flush().unwrap();
    pump(&mut c, &mut s);
    let msg = s.read().unwrap().unwrap();
    match msg {
        Message::Text(u) => assert_eq!(u.as_bytes(), &b"Hello, world!".to_vec()),
        other => panic!("expected text, got {:?}", other),
    }
}

#[test]
fn binary_round_trip_both_directions() {
    let mut c = client();
    let mut s = server();
    let payload: Vec<u8> = (0..200u16).map(|v| (v % 256) as u8).collect();
    c.write(Message::Binary(payload.clone())).unwrap();
    pump(&mut c, &mut s);
    match s.read().unwrap().unwrap() {
        Message::Binary(b) => assert_eq!(b, payload),
        other => panic!("expected binary, got {:?}", other),
    }
    s.write(Message::Binary(payload.clone())).unwrap();
    pump(&mut s, &mut c);
    match c.read().unwrap().unwrap() {
        Message::Binary(b) => assert_eq!(b, payload),
        other => panic!("expected binary, got {:?}", other),
    }
}

#[test]
fn ping_pong_echo() {
    let mut c = client();
    let mut s = server();
    c.write(Message::Ping(b"abc".to_vec())).unwrap();
    pump(&mut c, &mut s);
    // The server surfaces the ping to the caller and queues a pong.
    match s.read().unwrap().unwrap() {
        Message::Ping(p) => assert_eq!(p, b"abc".to_vec()),
        other => panic!("expected ping, got {:?}", other),
    }
    s.flush().unwrap();
    pump(&mut s, &mut c);
    match c.read().unwrap().unwrap() {
        Message::Pong(p) => assert_eq!(p, b"abc".to_vec()),
        other => panic!("expected pong, got {:?}", other),
    }
}

#[test]
fn fragmented_text_reassembly() {
    let mut c = client();
    let mut s = server();
    // The server sends a text message in three fragments.
    s.write(Message::Frame(Frame::new_data(b"Hel".to_vec(), OpCode::Data(Data::Text), false)))
        .unwrap();
    s.write(Message::Frame(Frame::new_data(
        b"lo, ".to_vec(),
        OpCode::Data(Data::Continuation),
        false,
    )))
    .unwrap();
    s.write(Message::Frame(Frame::new_data(
        b"world!".to_vec(),
        OpCode::Data(Data::Continuation),
        true,
    )))
    .unwrap();
    s.flush().unwrap();
    pump(&mut s, &mut c);
    match c.read().unwrap().unwrap() {
        Message::Text(u) => assert_eq!(u.as_bytes(), &b"Hello, world!".to_vec()),
        other => panic!("expected text, got {:?}", other),
    }
}

#[test]
fn graceful_close_handshake() {
    let mut c = client();
    let mut s = server();
    let close = CloseFrame {
        code: CloseCode::Normal,
        reason: Utf8Bytes::from_vec(b"bye".to_vec()).unwrap(),
    };
    c.close(Some(close)).unwrap();
    assert!(!c.can_write());
    pump(&mut c, &mut s);
    // The server surfaces the close and queues the echo.
    match s.read().unwrap().unwrap() {
        Message::Close(Some(cf)) => {
            assert_eq!(cf.code, CloseCode::Normal);
            assert_eq!(cf.reason.as_bytes(), &b"bye".to_vec());
        },
        other => panic!("expected close, got {:?}", other),
    }
    // The close handshake is complete on the server: the next read
    // flushes the echo and reports the closure.
    assert!(matches!(s.read(), Err(Error::ConnectionClosed)));
    assert!(matches!(s.read(), Err(Error::AlreadyClosed)));
    pump(&mut s, &mut c);
    // The client sees the echo, then the end of the stream.
    match c.read().unwrap().unwrap() {
        Message::Close(Some(cf)) => assert_eq!(cf.code, CloseCode::Normal),
        other => panic!("expected close echo, got {:?}", other),
    }
    c.set_eof();
    assert!(matches!(c.read(), Err(Error::ConnectionClosed)));
    assert!(matches!(c.read(), Err(Error::AlreadyClosed)));
}

#[test]
fn disallowed_close_code_is_replaced_in_echo() {
    let mut c = client();
    let mut s = server();
    let close = CloseFrame {
        code: CloseCode::Status,
        reason: Utf8Bytes::from_vec(b"x".to_vec()).unwrap(),
    };
    c.close(Some(close)).unwrap();
    pump(&mut c, &mut s);
    match s.read().unwrap().unwrap() {
        Message::Close(Some(cf)) => {
            assert_eq!(cf.code, CloseCode::Protocol);
            assert_eq!(cf.reason.as_bytes(), &b"Protocol violation".to_vec());
        },
        other => panic!("expected close, got {:?}", other),
    }
}

#[test]
fn send_after_close_is_refused() {
    let mut c = client();
    c.close(None).unwrap();
    assert!(matches!(
        c.write(text("late")),
        Err(Error::Protocol(ProtocolError::SendAfterClose))
    ));
}

#[test]
fn control_frame_with_126_byte_payload_is_refused() {
    // fin + ping, 16-bit length of 126, then the payload, unmasked.
    let mut wire = vec![0x89, 126, 0, 126];
    wire.extend_from_slice(&[0u8; 126]);
    let mut c = client();
    c.feed(&wire);
    assert!(matches!(
        c.read(),
        Err(Error::Protocol(ProtocolError::ControlFrameTooBig))
    ));
}

#[test]
fn fragmented_close_frame_is_refused() {
    // opcode close without the fin bit.
    let wire = vec![0x08, 0x00];
    let mut c = client();
    c.feed(&wire);
    assert!(matches!(
        c.read(),
        Err(Error::Protocol(ProtocolError::FragmentedControlFrame))
    ));
}

#[test]
fn unexpected_continuation_is_refused() {
    // fin + continuation with no message in progress.
    let wire = vec![0x80, 0x00];
    let mut c = client();
    c.feed(&wire);
    assert!(matches!(
        c.read(),
        Err(Error::Protocol(ProtocolError::UnexpectedContinue))
    ));
}

#[test]
fn data_frame_while_fragment_in_progress_is_refused() {
    // text without fin, then a fresh text frame.
    let wire = vec![0x01, 0x01, b'a', 0x81, 0x01, b'b'];
    let mut c = client();
    c.feed(&wire);
    assert!(matches!(
        c.read(),
        Err(Error::Protocol(ProtocolError::ExpectedFragment(FragmentType::Text)))
    ));
}

#[test]
fn invalid_utf8_in_final_text_fragment_is_refused() {
    let wire = vec![0x81, 0x02, 0xFF, 0xFE];
    let mut c = client();
    c.feed(&wire);
    assert!(matches!(c.read(), Err(Error::Utf8)));
}

#[test]
fn invalid_utf8_in_fragmented_text_is_refused() {
    // first fragment carries an invalid sequence outright
    let wire = vec![0x01, 0x02, 0xFF, 0xFE];
    let mut c = client();
    c.feed(&wire);
    assert!(matches!(c.read(), Err(Error::Utf8)));
}

#[test]
fn split_code_point_across_fragments_is_accepted() {
    // é is 0xC3 0xA9; the fragments split it in the middle.
    let wire = vec![0x01, 0x02, b'h', 0xC3, 0x80, 0x02, 0xA9, b'!'];
    let mut c = client();
    c.feed(&wire);
    match c.read().unwrap().unwrap() {
        Message::Text(u) => assert_eq!(u.as_bytes(), &"h\u{e9}!".as_bytes().to_vec()),
        other => panic!("expected text, got {:?}", other),
    }
}

#[test]
fn nonzero_reserved_bits_are_refused() {
    let wire = vec![0xC1, 0x01, b'a'];
    let mut c = client();
    c.feed(&wire);
    assert!(matches!(
        c.read(),
        Err(Error::Protocol(ProtocolError::NonZeroReservedBits))
    ));
}

#[test]
fn server_refuses_unmasked_frame() {
    let wire = vec![0x81, 0x01, b'a'];
    let mut s = server();
    s.feed(&wire);
    assert!(matches!(
        s.read(),
        Err(Error::Protocol(ProtocolError::UnmaskedFrameFromClient))
    ));
}

#[test]
fn server_accepts_unmasked_frame_when_configured() {
    let config = WebSocketConfig::default().accept_unmasked_frames(true);
    let mut s = WebSocketContext::new(OperationMode::Server, Some(config));
    let wire = vec![0x81, 0x01, b'a'];
    s.feed(&wire);
    match s.read().unwrap().unwrap() {
        Message::Text(u) => assert_eq!(u.as_bytes(), &b"a".to_vec()),
        other => panic!("expected text, got {:?}", other),
    }
}

#[test]
fn client_refuses_masked_frame() {
    // fin + text, masked, length 1
    let wire = vec![0x81, 0x81, 1, 2, 3, 4, b'a' ^ 1];
    let mut c = client();
    c.feed(&wire);
    assert!(matches!(
        c.read(),
        Err(Error::Protocol(ProtocolError::MaskedFrameFromServer))
    ));
}

#[test]
fn oversize_frame_is_refused_outright() {
    let config = WebSocketConfig::default().max_frame_size(Some(1024));
    let mut c = WebSocketContext::new(OperationMode::Client, Some(config));
    // announce a 2048-byte frame without sending its payload
    let wire = vec![0x82, 126, 0x08, 0x00];
    c.feed(&wire);
    match c.read() {
        Err(Error::Capacity(CapacityError::MessageTooLarge { size, max })) => {
            assert_eq!(size, 2048);
            assert_eq!(max, 1024);
        },
        other => panic!("expected capacity error, got {:?}", other),
    }
}

#[test]
fn oversize_message_is_refused_on_reassembly() {
    let config = WebSocketConfig::default().max_message_size(Some(4));
    let mut c = WebSocketContext::new(OperationMode::Client, Some(config));
    // two binary fragments of 3 bytes each exceed the 4-byte limit
    let wire = vec![0x02, 0x03, 1, 2, 3, 0x80, 0x03, 4, 5, 6];
    c.feed(&wire);
    match c.read() {
        Err(Error::Capacity(CapacityError::MessageTooLarge { size, max })) => {
            assert_eq!(size, 6);
            assert_eq!(max, 4);
        },
        other => panic!("expected capacity error, got {:?}", other),
    }
}

#[test]
fn oversize_single_frame_message_is_refused() {
    let config = WebSocketConfig::default().max_message_size(Some(4));
    let mut c = WebSocketContext::new(OperationMode::Client, Some(config));
    let wire = vec![0x82, 0x05, 1, 2, 3, 4, 5];
    c.feed(&wire);
    assert!(matches!(
        c.read(),
        Err(Error::Capacity(CapacityError::MessageTooLarge { size: 5, max: 4 }))
    ));
}

#[test]
fn write_buffer_full_preserves_the_session() {
    let config = WebSocketConfig::default().write_buffer_size(16).max_write_buffer_size(32);
    let mut c = WebSocketContext::new(OperationMode::Client, Some(config));
    let big = vec![7u8; 64];
    assert!(matches!(c.write(Message::Binary(big)), Err(Error::WriteBufferFull)));
    // Nothing was stored and the session stays writable.
    assert!(c.take_output().is_empty());
    assert!(c.can_write());
    c.write(Message::Binary(vec![7u8; 8])).unwrap();
    c.flush().unwrap();
    assert!(!c.take_output().is_empty());
}

#[test]
fn eof_without_close_is_a_reset() {
    let mut c = client();
    c.set_eof();
    assert!(matches!(
        c.read(),
        Err(Error::Protocol(ProtocolError::ResetWithoutClosing))
    ));
    assert!(matches!(c.read(), Err(Error::AlreadyClosed)));
}

#[test]
fn read_returns_none_until_frame_is_complete() {
    let mut c = client();
    c.feed(&vec![0x81]);
    assert!(matches!(c.read(), Ok(None)));
    c.feed(&vec![0x03, b'a']);
    assert!(matches!(c.read(), Ok(None)));
    c.feed(&vec![b'b', b'c']);
    match c.read().unwrap().unwrap() {
        Message::Text(u) => assert_eq!(u.as_bytes(), &b"abc".to_vec()),
        other => panic!("expected text, got {:?}", other),
    }
}

#[test]
fn client_output_is_masked_and_server_output_is_not() {
    let mut c = client();
    c.write(text("abc")).unwrap();
    c.flush().unwrap();
    let out = c.take_output();
    assert_eq!(out[0], 0x81);
    assert_eq!(out[1], 0x80 | 3);
    assert_eq!(out.len(), 2 + 4 + 3);
    // Unmasking with the emitted key restores the payload.
    let key = [out[2], out[3], out[4], out[5]];
    let unmasked: Vec<u8> = out[6..].iter().enumerate().map(|(i, b)| b ^ key[i % 4]).collect();
    assert_eq!(unmasked, b"abc".to_vec());

    let mut s = server();
    s.write(text("abc")).unwrap();
    s.flush().unwrap();
    let out = s.take_output();
    assert_eq!(out, vec![0x81, 3, b'a', b'b', b'c']);
}

#[test]
fn pong_never_displaces_a_queued_close_echo() {
    let mut c = client();
    let mut s = server();
    // A ping and then a close arrive together; the server must still
    // echo the close after answering (or dropping) the pong.
    c.write(Message::Ping(b"p".to_vec())).unwrap();
    c.close(None).unwrap();
    pump(&mut c, &mut s);
    assert!(matches!(s.read(), Ok(Some(Message::Ping(_)))));
    assert!(matches!(s.read(), Ok(Some(Message::Close(None)))));
    assert!(matches!(s.read(), Err(Error::ConnectionClosed)));
    pump(&mut s, &mut c);
    // The client still receives its close echo.
    let mut saw_close = false;
    loop {
        match c.read() {
            Ok(Some(Message::Close(_))) => {
                saw_close = true;
                break;
            },
            Ok(Some(_)) => {},
            Ok(None) => break,
            Err(_) => break,
        }
    }
    assert!(saw_close);
}
