//! Handshake tests: key derivation, request/response validation, the
//! byte-level parsers, and the abuse detector.
use blitz::client::{ClientHandshake, VerifyData};
use blitz::error::{CapacityError, Error, ProtocolError, SubProtocolError};
use blitz::handshake::{derive_accept_key, generate_key, HandshakeError, MidHandshake};
use blitz::http::{HttpMethod, HttpRequest, HttpResponse};
use blitz::machine::{HandshakeMachine, HandshakeState, IoEvent, RoundResult};
use blitz::server::{create_response, NoCallback, ServerHandshake};

fn h(name: &str, value: &str) -> (Vec<u8>, Vec<u8>) {
    (name.as_bytes().to_vec(), value.as_bytes().to_vec())
}

fn upgrade_request() -> HttpRequest {
    HttpRequest {
        method: HttpMethod::GET,
        path: b"/chat".to_vec(),
        version: b"HTTP/1.1".to_vec(),
        headers: vec![
            h("Host", "example.com"),
            h("Connection", "Upgrade"),
            h("Upgrade", "websocket"),
            h("Sec-WebSocket-Version", "13"),
            h("Sec-WebSocket-Key", "dGhlIHNhbXBsZSBub25jZQ=="),
        ],
        body: None,
    }
}

#[test]
fn accept_key_derivation_vector() {
    let key = b"dGhlIHNhbXBsZSBub25jZQ==".to_vec();
    let accept = derive_accept_key(&key);
    assert_eq!(accept, b"s3pPLMBiTxaQ9kYGzzhZRbK+xOo=".to_vec());
}

#[test]
fn generated_keys_are_base64_of_16_bytes() {
    let key = generate_key();
    assert_eq!(key.len(), 24);
    assert_eq!(key[22], b'=');
    assert_eq!(key[23], b'=');
}

#[test]
fn create_response_carries_the_derived_accept_key() {
    let req = upgrade_request();
    let resp = create_response(&req).unwrap();
    assert_eq!(resp.status_code, 101);
    let accept = resp.get_header(&b"Sec-WebSocket-Accept".to_vec()).unwrap();
    assert_eq!(accept, &b"s3pPLMBiTxaQ9kYGzzhZRbK+xOo=".to_vec());
    let upgrade = resp.get_header(&b"Upgrade".to_vec()).unwrap();
    assert_eq!(upgrade, &b"websocket".to_vec());
}

#[test]
fn create_response_rejects_bad_requests() {
    let mut req = upgrade_request();
    req.method = HttpMethod::POST;
    assert!(matches!(
        create_response(&req),
        Err(Error::Protocol(ProtocolError::InvalidHttpMethod))
    ));

    let mut req = upgrade_request();
    req.version = b"HTTP/1.0".to_vec();
    assert!(matches!(
        create_response(&req),
        Err(Error::Protocol(ProtocolError::InvalidHttpVersion))
    ));

    let mut req = upgrade_request();
    req.headers.retain(|(n, _)| n != &b"Connection".to_vec());
    assert!(matches!(
        create_response(&req),
        Err(Error::Protocol(ProtocolError::MissingConnectionUpgradeHeader))
    ));

    let mut req = upgrade_request();
    req.headers.retain(|(n, _)| n != &b"Upgrade".to_vec());
    assert!(matches!(
        create_response(&req),
        Err(Error::Protocol(ProtocolError::MissingUpgradeHeader))
    ));

    let mut req = upgrade_request();
    req.headers[3] = h("Sec-WebSocket-Version", "12");
    assert!(matches!(
        create_response(&req),
        Err(Error::Protocol(ProtocolError::MissingVersionHeader))
    ));

    let mut req = upgrade_request();
    req.headers.retain(|(n, _)| n != &b"Sec-WebSocket-Key".to_vec());
    assert!(matches!(
        create_response(&req),
        Err(Error::Protocol(ProtocolError::MissingKeyHeader))
    ));
}

#[test]
fn create_response_accepts_later_http_versions() {
    let mut req = upgrade_request();
    req.version = b"HTTP/1.2".to_vec();
    assert_eq!(create_response(&req).unwrap().status_code, 101);

    let mut req = upgrade_request();
    req.version = b"HTTP/2".to_vec();
    assert_eq!(create_response(&req).unwrap().status_code, 101);

    let mut req = upgrade_request();
    req.version = b"HTTP/2.0".to_vec();
    assert_eq!(create_response(&req).unwrap().status_code, 101);

    let mut req = upgrade_request();
    req.version = b"HTTP/0.9".to_vec();
    assert!(matches!(
        create_response(&req),
        Err(Error::Protocol(ProtocolError::InvalidHttpVersion))
    ));

    // The client-side check agrees.
    let mut req = upgrade_request();
    req.version = b"HTTP/1.2".to_vec();
    assert!(ClientHandshake::start(req, None).is_ok());
    let mut req = upgrade_request();
    req.version = b"HTTP/1.0".to_vec();
    assert!(matches!(
        ClientHandshake::start(req, None),
        Err(Error::Protocol(ProtocolError::InvalidHttpVersion))
    ));
}

fn ok_response() -> HttpResponse {
    HttpResponse {
        status_code: 101,
        reason_phrase: b"Switching Protocols".to_vec(),
        headers: vec![
            h("Connection", "Upgrade"),
            h("Upgrade", "websocket"),
            h("Sec-WebSocket-Accept", "s3pPLMBiTxaQ9kYGzzhZRbK+xOo="),
        ],
        body: None,
    }
}

fn verify_data(protocols: Option<Vec<&str>>) -> VerifyData {
    VerifyData {
        accept_key: b"s3pPLMBiTxaQ9kYGzzhZRbK+xOo=".to_vec(),
        subprotocols: protocols.map(|ps| ps.iter().map(|p| p.as_bytes().to_vec()).collect()),
    }
}

#[test]
fn verify_response_accepts_a_proper_response() {
    let vd = verify_data(None);
    assert!(vd.verify_response(ok_response()).is_ok());
}

#[test]
fn verify_response_rejects_non_101() {
    let vd = verify_data(None);
    let mut resp = ok_response();
    resp.status_code = 200;
    assert!(matches!(vd.verify_response(resp), Err(Error::Http(_))));
}

#[test]
fn verify_response_rejects_missing_connection_upgrade() {
    let vd = verify_data(None);
    let mut resp = ok_response();
    resp.headers[0] = h("Connection", "close");
    assert!(matches!(
        vd.verify_response(resp),
        Err(Error::Protocol(ProtocolError::MissingConnectionUpgradeHeader))
    ));
}

#[test]
fn verify_response_accepts_connection_token_lists() {
    let vd = verify_data(None);
    let mut resp = ok_response();
    resp.headers[0] = h("Connection", "keep-alive, UPGRADE");
    assert!(vd.verify_response(resp).is_ok());
}

#[test]
fn verify_response_rejects_wrong_upgrade() {
    let vd = verify_data(None);
    let mut resp = ok_response();
    resp.headers[1] = h("Upgrade", "h2c");
    assert!(matches!(
        vd.verify_response(resp),
        Err(Error::Protocol(ProtocolError::MissingUpgradeHeader))
    ));
}

#[test]
fn verify_response_rejects_wrong_accept_key() {
    let vd = verify_data(None);
    let mut resp = ok_response();
    resp.headers[2] = h("Sec-WebSocket-Accept", "AAAAAAAAAAAAAAAAAAAAAAAAAAA=");
    assert!(matches!(
        vd.verify_response(resp),
        Err(Error::Protocol(ProtocolError::AcceptKeyMismatch))
    ));
}

#[test]
fn verify_response_subprotocol_rules() {
    // Requested one, server sent none.
    let vd = verify_data(Some(vec!["chat"]));
    assert!(matches!(
        vd.verify_response(ok_response()),
        Err(Error::Protocol(ProtocolError::SecWebSocketSubProtocolError(
            SubProtocolError::NoSubProtocol
        )))
    ));
    // Requested none, server sent one.
    let vd = verify_data(None);
    let mut resp = ok_response();
    resp.headers.push(h("Sec-WebSocket-Protocol", "chat"));
    assert!(matches!(
        vd.verify_response(resp),
        Err(Error::Protocol(ProtocolError::SecWebSocketSubProtocolError(
            SubProtocolError::ServerSentSubProtocolNoneRequested
        )))
    ));
    // Requested a set, server sent something else.
    let vd = verify_data(Some(vec!["chat", "super"]));
    let mut resp = ok_response();
    resp.headers.push(h("Sec-WebSocket-Protocol", "other"));
    assert!(matches!(
        vd.verify_response(resp),
        Err(Error::Protocol(ProtocolError::SecWebSocketSubProtocolError(
            SubProtocolError::InvalidSubProtocol
        )))
    ));
    // Requested a set, server chose one of them.
    let vd = verify_data(Some(vec!["chat", "super"]));
    let mut resp = ok_response();
    resp.headers.push(h("Sec-WebSocket-Protocol", "super"));
    assert!(vd.verify_response(resp).is_ok());
}

#[test]
fn parse_request_round_trip() {
    let raw = b"GET /chat HTTP/1.1\r\nHost: example.com\r\nConnection: Upgrade\r\nUpgrade: websocket\r\nSec-WebSocket-Version: 13\r\nSec-WebSocket-Key: dGhlIHNhbXBsZSBub25jZQ==\r\n\r\n".to_vec();
    let (n, req) = blitz::http::parse_request(&raw).unwrap().unwrap();
    assert_eq!(n, raw.len());
    assert_eq!(req.method, HttpMethod::GET);
    assert_eq!(req.path, b"/chat".to_vec());
    assert_eq!(req.headers.len(), 5);
    assert_eq!(
        req.get_header(&b"sec-websocket-key".to_vec()).unwrap(),
        &b"dGhlIHNhbXBsZSBub25jZQ==".to_vec()
    );
}

#[test]
fn parse_request_is_incomplete_without_terminator() {
    let raw = b"GET /chat HTTP/1.1\r\nHost: example.com\r\n".to_vec();
    assert!(matches!(blitz::http::parse_request(&raw), Ok(None)));
}

#[test]
fn parse_request_rejects_too_many_headers() {
    let mut raw = b"GET / HTTP/1.1\r\n".to_vec();
    for i in 0..130 {
        raw.extend_from_slice(format!("X-Header-{}: v\r\n", i).as_bytes());
    }
    raw.extend_from_slice(b"\r\n");
    assert!(matches!(
        blitz::http::parse_request(&raw),
        Err(Error::Capacity(CapacityError::TooManyHeaders))
    ));
}

#[test]
fn parse_request_rejects_non_get() {
    let raw = b"POST / HTTP/1.1\r\nHost: x\r\n\r\n".to_vec();
    assert!(matches!(
        blitz::http::parse_request(&raw),
        Err(Error::Protocol(ProtocolError::InvalidHttpMethod))
    ));
}

#[test]
fn parse_response_round_trip() {
    let raw = b"HTTP/1.1 101 Switching Protocols\r\nUpgrade: websocket\r\n\r\n".to_vec();
    let (n, resp) = blitz::http::parse_response(&raw).unwrap().unwrap();
    assert_eq!(n, raw.len());
    assert_eq!(resp.status_code, 101);
    assert_eq!(resp.get_header(&b"upgrade".to_vec()).unwrap(), &b"websocket".to_vec());
}

#[test]
fn attack_detector_fires_on_dripped_reads() {
    // A peer drips 80 reads of 100 bytes each without ever finishing
    // its message: the average-size rule fires.
    let mut machine = HandshakeMachine::start_read();
    let mut fired = None;
    for round in 0..80 {
        let chunk = vec![b'x'; 100];
        match machine.single_round::<HttpRequest>(IoEvent::Read(chunk)) {
            Ok(RoundResult::Incomplete(m)) => machine = m,
            Err(e) => {
                fired = Some((round + 1, e));
                break;
            },
            other => panic!("unexpected round result: {:?}", other),
        }
    }
    let (rounds, error) = fired.expect("the detector never fired");
    assert!(matches!(error, Error::AttackAttempt));
    // It fires on the 65th read: past 64 reads, 65 * 128 > 6500 bytes.
    assert_eq!(rounds, 65);
}

#[test]
fn handshake_machine_writes_in_chunks() {
    let machine = HandshakeMachine::start_write(b"response-bytes".to_vec());
    let m2 = match machine.single_round::<HttpRequest>(IoEvent::Wrote(8)) {
        Ok(RoundResult::Incomplete(m)) => m,
        other => panic!("unexpected: {:?}", other),
    };
    assert_eq!(m2.pending_output(), b"-bytes".to_vec());
    let m3 = match m2.single_round::<HttpRequest>(IoEvent::Wrote(6)) {
        Ok(RoundResult::Incomplete(m)) => m,
        other => panic!("unexpected: {:?}", other),
    };
    assert!(matches!(m3.state, HandshakeState::Flushing));
}

#[test]
fn client_server_handshake_end_to_end() {
    // Start the client: it wants to write its serialized request.
    let client = ClientHandshake::start(upgrade_request(), None).unwrap();
    let request_bytes = client.machine.pending_output();
    // Start the server and feed it the client's bytes.
    let server: MidHandshake<ServerHandshake<NoCallback>> = ServerHandshake::start(NoCallback, None);
    let server = match server.handshake(IoEvent::Read(request_bytes.clone())) {
        Err(HandshakeError::Interrupted(mh)) => mh,
        other => panic!("unexpected: {:?}", other.is_ok()),
    };
    // The server now wants to write its response.
    let response_bytes = server.machine.pending_output();
    assert!(!response_bytes.is_empty());
    // Drive the client: request written, flushed, then the response read.
    let n = request_bytes.len();
    let client = match client.handshake(IoEvent::Wrote(n)) {
        Err(HandshakeError::Interrupted(mh)) => mh,
        other => panic!("unexpected: {:?}", other.is_ok()),
    };
    let client = match client.handshake(IoEvent::Flushed) {
        Err(HandshakeError::Interrupted(mh)) => mh,
        other => panic!("unexpected: {:?}", other.is_ok()),
    };
    let (session, response) = match client.handshake(IoEvent::Read(response_bytes.clone())) {
        Ok(done) => done,
        Err(HandshakeError::Failure(e)) => panic!("client handshake failed: {:?}", e),
        Err(HandshakeError::Interrupted(_)) => panic!("client handshake did not finish"),
    };
    assert_eq!(response.status_code, 101);
    assert!(session.can_read() && session.can_write());
    // Drive the server to completion as well.
    let m = response_bytes.len();
    let server = match server.handshake(IoEvent::Wrote(m)) {
        Err(HandshakeError::Interrupted(mh)) => mh,
        other => panic!("unexpected: {:?}", other.is_ok()),
    };
    let session = match server.handshake(IoEvent::Flushed) {
        Ok(done) => done,
        Err(HandshakeError::Failure(e)) => panic!("server handshake failed: {:?}", e),
        Err(HandshakeError::Interrupted(_)) => panic!("server handshake did not finish"),
    };
    assert!(session.can_read() && session.can_write());
}

#[test]
fn server_rejects_junk_after_request() {
    let mut raw = b"GET / HTTP/1.1\r\nHost: x\r\nConnection: Upgrade\r\nUpgrade: websocket\r\nSec-WebSocket-Version: 13\r\nSec-WebSocket-Key: dGhlIHNhbXBsZSBub25jZQ==\r\n\r\n".to_vec();
    raw.extend_from_slice(b"junk");
    let server: MidHandshake<ServerHandshake<NoCallback>> = ServerHandshake::start(NoCallback, None);
    match server.handshake(IoEvent::Read(raw)) {
        Err(HandshakeError::Failure(Error::Protocol(ProtocolError::JunkAfterRequest))) => {},
        other => panic!("unexpected: {:?}", other.is_ok()),
    }
}

#[test]
fn client_rejects_request_without_key_header() {
    let mut req = upgrade_request();
    req.headers.retain(|(n, _)| n != &b"Sec-WebSocket-Key".to_vec());
    assert!(matches!(
        ClientHandshake::start(req, None),
        Err(Error::Protocol(ProtocolError::InvalidHeader))
    ));
}

#[test]
fn client_serializes_the_request() {
    let client = ClientHandshake::start(upgrade_request(), None).unwrap();
    let bytes = client.machine.pending_output();
    let text = String::from_utf8(bytes).unwrap();
    assert!(text.starts_with("GET /chat HTTP/1.1\r\n"));
    assert!(text.contains("Sec-WebSocket-Key: dGhlIHNhbXBsZSBub25jZQ==\r\n"));
    assert!(text.ends_with("\r\n\r\n"));
}
