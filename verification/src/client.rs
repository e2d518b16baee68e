//! The client handshake role: building the upgrade request, and
//! validating the server's response against the derived accept key.
use vstd::prelude::*;
use crate::config::WebSocketConfig;
use crate::error::{Error, ProtocolError, SubProtocolError, UrlError};
use crate::handshake::{
    derive_accept_key,
    spec_accept_key_of,
    HandshakeRole,
    MidHandshake,
    ProcessingResult,
};
use crate::http::{
    eq_ignore_case,
    header_contains_token,
    spec_contains_token,
    spec_eq_ignore_case,
    spec_find_header,
    spec_header_line,
    spec_hn_connection,
    spec_hn_host,
    spec_hn_sec_websocket_accept,
    spec_hn_sec_websocket_key,
    spec_hn_sec_websocket_protocol,
    spec_hn_sec_websocket_version,
    spec_hn_upgrade,
    spec_hn_websocket,
    split_byte,
    trim_bytes,
    HttpMethod,
    HttpRequest,
    HttpResponse,
};
use crate::machine::{HandshakeMachine, StageResult};
use crate::websocket::{OperationMode, WebSocketContext};

verus! {

/// The data a client holds to validate the server's response.
#[derive(Debug)]
pub struct VerifyData {
    /// The expected `Sec-WebSocket-Accept` value.
    pub accept_key: Vec<u8>,
    /// The subprotocols the request asked for, if any.
    pub subprotocols: Option<Vec<Vec<u8>>>,
}

/// Whether some entry of the list equals the value byte for byte.
pub open spec fn spec_list_contains(list: Seq<Vec<u8>>, v: Seq<u8>) -> bool {
    exists|i: int| 0 <= i < list.len() && #[trigger] list[i]@ == v
}

/// Check whether some entry of the list equals the value.
fn list_contains(list: &Vec<Vec<u8>>, v: &Vec<u8>) -> (r: bool)
    ensures
        r == spec_list_contains(list@, v@),
{
    let n = list.len();
    let mut i: usize = 0;
    while i < n
        invariant
            i <= n,
            n == list@.len(),
            forall|j: int| 0 <= j < i ==> #[trigger] list@[j]@ != v@,
        decreases n - i,
    {
        if crate::http::bytes_eq(&list[i], v) {
            return true;
        }
        i += 1;
    }
    false
}

impl VerifyData {
    /// What validating a response yields: the first broken rule, in
    /// order, or the response itself when every rule holds.
    pub open spec fn spec_verify(self, res: HttpResponse, r: Result<HttpResponse, Error>) -> bool {
        let hs = res.headers@;
        if res.status_code != 101 {
            r == Err::<HttpResponse, Error>(Error::Http(res))
        } else if !(spec_find_header(hs, spec_hn_connection()) matches Some(cv)
            && spec_contains_token(cv, spec_hn_upgrade())) {
            r == Err::<HttpResponse, Error>(
                Error::Protocol(ProtocolError::MissingConnectionUpgradeHeader),
            )
        } else if !(spec_find_header(hs, spec_hn_upgrade()) matches Some(uv)
            && spec_eq_ignore_case(uv, spec_hn_websocket())) {
            r == Err::<HttpResponse, Error>(Error::Protocol(ProtocolError::MissingUpgradeHeader))
        } else if !(spec_find_header(hs, spec_hn_sec_websocket_accept()) matches Some(av) && av
            == self.accept_key@) {
            r == Err::<HttpResponse, Error>(Error::Protocol(ProtocolError::AcceptKeyMismatch))
        } else if spec_find_header(hs, spec_hn_sec_websocket_protocol()) is None
            && self.subprotocols is Some {
            r == Err::<HttpResponse, Error>(
                Error::Protocol(
                    ProtocolError::SecWebSocketSubProtocolError(SubProtocolError::NoSubProtocol),
                ),
            )
        } else if spec_find_header(hs, spec_hn_sec_websocket_protocol()) is Some
            && self.subprotocols is None {
            r == Err::<HttpResponse, Error>(
                Error::Protocol(
                    ProtocolError::SecWebSocketSubProtocolError(
                        SubProtocolError::ServerSentSubProtocolNoneRequested,
                    ),
                ),
            )
        } else if spec_find_header(hs, spec_hn_sec_websocket_protocol()) matches Some(pv)
            && self.subprotocols matches Some(list) && !spec_list_contains(list@, pv) {
            r == Err::<HttpResponse, Error>(
                Error::Protocol(
                    ProtocolError::SecWebSocketSubProtocolError(SubProtocolError::InvalidSubProtocol),
                ),
            )
        } else {
            r == Ok::<HttpResponse, Error>(res)
        }
    }

    /// Validate the server's handshake response.
    pub fn verify_response(&self, res: HttpResponse) -> (r: Result<HttpResponse, Error>)
        ensures
            self.spec_verify(res, r),
    {
        if res.status_code != 101 {
            return Err(Error::Http(res));
        }
        let connection_ok = match res.get_header(&crate::http::hn_connection()) {
            Some(cv) => header_contains_token(cv, &crate::http::hn_upgrade()),
            None => false,
        };
        if !connection_ok {
            return Err(Error::Protocol(ProtocolError::MissingConnectionUpgradeHeader));
        }
        let upgrade_ok = match res.get_header(&crate::http::hn_upgrade()) {
            Some(uv) => eq_ignore_case(uv, &crate::http::hn_websocket()),
            None => false,
        };
        if !upgrade_ok {
            return Err(Error::Protocol(ProtocolError::MissingUpgradeHeader));
        }
        let accept_ok = match res.get_header(&crate::http::hn_sec_websocket_accept()) {
            Some(av) => crate::http::bytes_eq(av, &self.accept_key),
            None => false,
        };
        if !accept_ok {
            return Err(Error::Protocol(ProtocolError::AcceptKeyMismatch));
        }
        let proto = res.get_header(&crate::http::hn_sec_websocket_protocol());
        match (&proto, &self.subprotocols) {
            (None, Some(_)) => {
                return Err(
                    Error::Protocol(
                        ProtocolError::SecWebSocketSubProtocolError(SubProtocolError::NoSubProtocol),
                    ),
                );
            },
            (Some(_), None) => {
                return Err(
                    Error::Protocol(
                        ProtocolError::SecWebSocketSubProtocolError(
                            SubProtocolError::ServerSentSubProtocolNoneRequested,
                        ),
                    ),
                );
            },
            (Some(pv), Some(list)) => {
                if !list_contains(list, pv) {
                    return Err(
                        Error::Protocol(
                            ProtocolError::SecWebSocketSubProtocolError(
                                SubProtocolError::InvalidSubProtocol,
                            ),
                        ),
                    );
                }
            },
            (None, None) => {},
        }
        Ok(res)
    }
}

/// The serialized request line: `GET <path> <version>` and a line break.
pub open spec fn spec_request_line(path: Seq<u8>, version: Seq<u8>) -> Seq<u8> {
    seq![71u8, 69, 84, 32] + path + seq![32u8] + version + seq![13u8, 10]
}

/// Whether a header name is one of the five the request writes first.
pub open spec fn spec_is_ws_header(name: Seq<u8>) -> bool {
    spec_eq_ignore_case(name, spec_hn_host()) || spec_eq_ignore_case(name, spec_hn_connection())
        || spec_eq_ignore_case(name, spec_hn_upgrade()) || spec_eq_ignore_case(
        name,
        spec_hn_sec_websocket_version(),
    ) || spec_eq_ignore_case(name, spec_hn_sec_websocket_key())
}

/// The serialized remaining headers: the first `n` headers whose name
/// is not one of the five, in order.
pub open spec fn spec_other_header_lines(hs: Seq<(Vec<u8>, Vec<u8>)>, n: int) -> Seq<u8>
    decreases n,
{
    if n <= 0 {
        Seq::empty()
    } else if spec_is_ws_header(hs[n - 1].0@) {
        spec_other_header_lines(hs, n - 1)
    } else {
        spec_other_header_lines(hs, n - 1) + spec_header_line(hs[n - 1].0@, hs[n - 1].1@)
    }
}

/// The serialized client request: the request line, the five required
/// headers, every other header, and the closing empty line.
pub open spec fn spec_client_request(req: HttpRequest) -> Seq<u8> {
    let hs = req.headers@;
    spec_request_line(req.path@, req.version@) + spec_header_line(
        spec_hn_host(),
        spec_find_header(hs, spec_hn_host()).unwrap(),
    ) + spec_header_line(
        spec_hn_connection(),
        spec_find_header(hs, spec_hn_connection()).unwrap(),
    ) + spec_header_line(
        spec_hn_upgrade(),
        spec_find_header(hs, spec_hn_upgrade()).unwrap(),
    ) + spec_header_line(
        spec_hn_sec_websocket_version(),
        spec_find_header(hs, spec_hn_sec_websocket_version()).unwrap(),
    ) + spec_header_line(
        spec_hn_sec_websocket_key(),
        spec_find_header(hs, spec_hn_sec_websocket_key()).unwrap(),
    ) + spec_other_header_lines(hs, hs.len() as int) + seq![13u8, 10]
}

/// Append `name: value` for a required header, or fail if it is absent.
fn push_required_header(
    out: &mut Vec<u8>,
    req: &HttpRequest,
    name: &Vec<u8>,
) -> (r: Result<(), Error>)
    ensures
        match r {
            Ok(()) => spec_find_header(req.headers@, name@) matches Some(v) && final(out)@ == old(
                out,
            )@ + spec_header_line(name@, v),
            Err(e) => e == Error::Protocol(ProtocolError::InvalidHeader) && spec_find_header(
                req.headers@,
                name@,
            ) is None && *final(out) == *old(out),
        },
{
    match req.get_header(name) {
        None => Err(Error::Protocol(ProtocolError::InvalidHeader)),
        Some(v) => {
            let value = crate::http::copy_range(v, 0, v.len());
            crate::http::push_header_line(out, name, &value);
            Ok(())
        },
    }
}

/// Verify a client request and serialize it, extracting the key the
/// response will be checked against.
pub fn generate_request(request: HttpRequest) -> (r: Result<(Vec<u8>, Vec<u8>), Error>)
    ensures
        match r {
            Ok((bytes, key)) => request.path@.len() > 0 && spec_find_header(
                request.headers@,
                spec_hn_sec_websocket_key(),
            ) == Some(key@) && bytes@ == spec_client_request(request) && spec_find_header(
                request.headers@,
                spec_hn_host(),
            ) is Some && spec_find_header(request.headers@, spec_hn_connection()) is Some
                && spec_find_header(request.headers@, spec_hn_upgrade()) is Some
                && spec_find_header(request.headers@, spec_hn_sec_websocket_version()) is Some,
            Err(e) => if request.path@.len() == 0 {
                e == Error::Url(UrlError::NoPathOrQuery)
            } else {
                e == Error::Protocol(ProtocolError::InvalidHeader) && (spec_find_header(
                    request.headers@,
                    spec_hn_host(),
                ) is None || spec_find_header(request.headers@, spec_hn_connection()) is None
                    || spec_find_header(request.headers@, spec_hn_upgrade()) is None
                    || spec_find_header(request.headers@, spec_hn_sec_websocket_version()) is None
                    || spec_find_header(request.headers@, spec_hn_sec_websocket_key()) is None)
            },
        },
{
    if request.path.len() == 0 {
        return Err(Error::Url(UrlError::NoPathOrQuery));
    }
    let key: Vec<u8> = match request.get_header(&crate::http::hn_sec_websocket_key()) {
        None => {
            return Err(Error::Protocol(ProtocolError::InvalidHeader));
        },
        Some(v) => crate::http::copy_range(v, 0, v.len()),
    };
    let mut out: Vec<u8> = Vec::new();
    out.push(71);
    out.push(69);
    out.push(84);
    out.push(32);
    out.extend_from_slice(request.path.as_slice());
    out.push(32);
    out.extend_from_slice(request.version.as_slice());
    out.push(13);
    out.push(10);
    assert(out@ =~= spec_request_line(request.path@, request.version@));
    match push_required_header(&mut out, &request, &crate::http::hn_host()) {
        Ok(()) => {},
        Err(e) => {
            return Err(e);
        },
    }
    match push_required_header(&mut out, &request, &crate::http::hn_connection()) {
        Ok(()) => {},
        Err(e) => {
            return Err(e);
        },
    }
    match push_required_header(&mut out, &request, &crate::http::hn_upgrade()) {
        Ok(()) => {},
        Err(e) => {
            return Err(e);
        },
    }
    match push_required_header(&mut out, &request, &crate::http::hn_sec_websocket_version()) {
        Ok(()) => {},
        Err(e) => {
            return Err(e);
        },
    }
    match push_required_header(&mut out, &request, &crate::http::hn_sec_websocket_key()) {
        Ok(()) => {},
        Err(e) => {
            return Err(e);
        },
    }
    let ghost mid = out@;
    let n = request.headers.len();
    let mut i: usize = 0;
    while i < n
        invariant
            i <= n,
            n == request.headers@.len(),
            out@ == mid + spec_other_header_lines(request.headers@, i as int),
        decreases n - i,
    {
        let name = &request.headers[i].0;
        let is_ws = eq_ignore_case(name, &crate::http::hn_host()) || eq_ignore_case(
            name,
            &crate::http::hn_connection(),
        ) || eq_ignore_case(name, &crate::http::hn_upgrade()) || eq_ignore_case(
            name,
            &crate::http::hn_sec_websocket_version(),
        ) || eq_ignore_case(name, &crate::http::hn_sec_websocket_key());
        if !is_ws {
            crate::http::push_header_line(&mut out, &request.headers[i].0, &request.headers[i].1);
            assert(out@ =~= mid + spec_other_header_lines(request.headers@, i + 1));
        } else {
            assert(out@ =~= mid + spec_other_header_lines(request.headers@, i + 1));
        }
        i += 1;
    }
    out.push(13);
    out.push(10);
    assert(out@ =~= spec_client_request(request));
    Ok((out, key))
}

/// The client handshake role.
#[derive(Debug)]
pub struct ClientHandshake {
    /// The data the response is checked against.
    pub verify_data: VerifyData,
    /// The configuration for the session the handshake creates.
    pub config: Option<WebSocketConfig>,
}

impl ClientHandshake {
    /// Initiate a client handshake: verify and serialize the request,
    /// derive the accept key, and start writing.
    pub fn start(request: HttpRequest, config: Option<WebSocketConfig>) -> (r: Result<
        MidHandshake<ClientHandshake>,
        Error,
    >)
        requires
            config matches Some(c) ==> c.is_valid(),
        ensures
            ({
                let hs = request.headers@;
                if request.method != HttpMethod::GET {
                    r == Err::<MidHandshake<ClientHandshake>, Error>(
                        Error::Protocol(ProtocolError::InvalidHttpMethod),
                    )
                } else if !crate::http::spec_http_version_at_least_11(request.version@) {
                    r == Err::<MidHandshake<ClientHandshake>, Error>(
                        Error::Protocol(ProtocolError::InvalidHttpVersion),
                    )
                } else if request.path@.len() == 0 {
                    r == Err::<MidHandshake<ClientHandshake>, Error>(
                        Error::Url(UrlError::NoPathOrQuery),
                    )
                } else if spec_find_header(hs, spec_hn_host()) is None || spec_find_header(
                    hs,
                    spec_hn_connection(),
                ) is None || spec_find_header(hs, spec_hn_upgrade()) is None || spec_find_header(
                    hs,
                    spec_hn_sec_websocket_version(),
                ) is None || spec_find_header(hs, spec_hn_sec_websocket_key()) is None {
                    r == Err::<MidHandshake<ClientHandshake>, Error>(
                        Error::Protocol(ProtocolError::InvalidHeader),
                    )
                } else {
                    r matches Ok(mh) && mh.machine.wf() && mh.role.wf_role() && {
                        &&& mh.machine.state matches crate::machine::HandshakeState::Writing(d, p)
                            && p == 0 && d@ == spec_client_request(request)
                        &&& mh.role.verify_data.accept_key@ == spec_accept_key_of(
                            spec_find_header(hs, spec_hn_sec_websocket_key()).unwrap(),
                        )
                        &&& mh.role.config == config
                        &&& (match spec_find_header(hs, spec_hn_sec_websocket_protocol()) {
                            None => mh.role.verify_data.subprotocols is None,
                            Some(pv) => mh.role.verify_data.subprotocols matches Some(list) && {
                                let parts = crate::http::spec_split(pv, 44);
                                &&& list@.len() == parts.len()
                                &&& forall|k: int|
                                    0 <= k < list@.len() ==> #[trigger] list@[k]@
                                        == crate::http::spec_trim(parts[k])
                            },
                        })
                    }
                }
            }),
    {
        if !matches!(request.method, HttpMethod::GET) {
            return Err(Error::Protocol(ProtocolError::InvalidHttpMethod));
        }
        if !crate::http::http_version_at_least_11(&request.version) {
            return Err(Error::Protocol(ProtocolError::InvalidHttpVersion));
        }
        let subprotocols: Option<Vec<Vec<u8>>> = match request.get_header(
            &crate::http::hn_sec_websocket_protocol(),
        ) {
            None => None,
            Some(pv) => {
                let parts = split_byte(pv, 44);
                let ghost pviews = crate::http::spec_split(pv@, 44);
                let mut list: Vec<Vec<u8>> = Vec::new();
                let m = parts.len();
                let mut i: usize = 0;
                while i < m
                    invariant
                        i <= m,
                        m == parts@.len(),
                        pviews.len() == m,
                        forall|k: int| 0 <= k < m ==> parts@[k]@ == pviews[k],
                        list@.len() == i,
                        forall|k: int|
                            0 <= k < i ==> #[trigger] list@[k]@ == crate::http::spec_trim(
                                pviews[k],
                            ),
                    decreases m - i,
                {
                    list.push(trim_bytes(&parts[i]));
                    i += 1;
                }
                Some(list)
            },
        };
        let (serialized, key) = match generate_request(request) {
            Ok(p) => p,
            Err(e) => {
                return Err(e);
            },
        };
        let accept_key = derive_accept_key(&key);
        assert(serialized@.len() > 0);
        let machine = HandshakeMachine::start_write(serialized);
        Ok(
            MidHandshake {
                role: ClientHandshake {
                    verify_data: VerifyData { accept_key, subprotocols },
                    config,
                },
                machine,
            },
        )
    }
}

impl HandshakeRole for ClientHandshake {
    type IncomingData = HttpResponse;

    type FinalResult = (WebSocketContext, HttpResponse);

    /// The configuration, when given, is valid.
    open spec fn wf_role(&self) -> bool {
        self.config matches Some(c) ==> c.is_valid()
    }

    /// The client's stage table. A finished write continues with a fresh
    /// reader. A finished read runs the response-verification cascade:
    /// on success the exchange is done with a client-mode session
    /// holding the tail bytes; on failure that error is reported, with
    /// the tail bytes placed in a rejection response's body.
    open spec fn spec_stage_rel(
        pre: Self,
        post: Self,
        finish: StageResult<HttpResponse>,
        r: Result<ProcessingResult<(WebSocketContext, HttpResponse)>, Error>,
    ) -> bool {
        &&& post == pre
        &&& match finish {
            StageResult::DoneWriting => r matches Ok(p) && p matches ProcessingResult::Continue(m)
                && (m.state matches crate::machine::HandshakeState::Reading(b, c) && b@.len() == 0
                && c.packets == 0 && c.bytes == 0),
            StageResult::DoneReading { result, tail } => {
                if pre.verify_data.spec_verify(result, Ok(result)) {
                    r matches Ok(p) && p matches ProcessingResult::Done(done) && done.1 == result
                        && {
                        let ws = done.0;
                        &&& ws.mode is Client
                        &&& ws.state is Active
                        &&& ws.incomplete is None
                        &&& ws.additional_send is None
                        &&& !ws.eof
                        &&& ws.frame.unread() == tail@
                        &&& ws.frame.header is None
                        &&& ws.out_bytes() == Seq::<u8>::empty()
                        &&& (pre.config matches Some(c) ==> ws.config == c)
                    }
                } else {
                    exists|e: Error|
                        #[trigger] pre.verify_data.spec_verify(result, Err(e)) && (match e {
                            Error::Http(resp) => r matches Err(e2) && e2 matches Error::Http(resp2)
                                && resp2 == (HttpResponse {
                                body: if tail@.len() > 0 {
                                    Some(tail)
                                } else {
                                    resp.body
                                },
                                ..resp
                            }),
                            _ => r == Err::<
                                ProcessingResult<(WebSocketContext, HttpResponse)>,
                                Error,
                            >(e),
                        })
                }
            },
        }
    }

    /// After writing the request, read the response; after reading it,
    /// validate it and hand over a client session holding any tail
    /// bytes that arrived after the response head.
    fn stage_finished(&mut self, finish: StageResult<HttpResponse>) -> (r: Result<
        ProcessingResult<(WebSocketContext, HttpResponse)>,
        Error,
    >) {
        match finish {
            StageResult::DoneWriting => Ok(
                ProcessingResult::Continue(HandshakeMachine::start_read()),
            ),
            StageResult::DoneReading { result, tail } => {
                let ghost res0 = result;
                let ghost tail0 = tail;
                match self.verify_data.verify_response(result) {
                    Ok(res) => {
                        proof {
                            assert(self.verify_data.spec_verify(res0, Ok(res0)));
                        }
                        let websocket = WebSocketContext::from_partially_read(
                            tail,
                            OperationMode::Client,
                            self.config,
                        );
                        Ok(ProcessingResult::Done((websocket, res)))
                    },
                    Err(e) => {
                        let ghost e0 = e;
                        proof {
                            assert(self.verify_data.spec_verify(res0, Err(e0)));
                            assert(!self.verify_data.spec_verify(res0, Ok(res0)));
                        }
                        match e {
                            Error::Http(mut resp) => {
                                if tail.len() > 0 {
                                    resp.body = Some(tail);
                                }
                                Err(Error::Http(resp))
                            },
                            other => Err(other),
                        }
                    },
                }
            },
        }
    }
}

} // verus!
