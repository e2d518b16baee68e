//! The server handshake role: validating the client's request, deriving
//! the accept key, and letting a callback inspect or reject the exchange.
use vstd::prelude::*;
use crate::config::WebSocketConfig;
use crate::error::{Error, ProtocolError};
use crate::handshake::{
    derive_accept_key,
    spec_accept_key_of,
    HandshakeRole,
    MidHandshake,
    ProcessingResult,
};
use crate::http::{
    eq_ignore_case,
    http_version_at_least_11,
    header_contains_token,
    spec_contains_token,
    spec_eq_ignore_case,
    spec_find_header,
    spec_hn_connection,
    spec_hn_sec_websocket_accept,
    spec_hn_sec_websocket_key,
    spec_hn_sec_websocket_version,
    spec_hn_thirteen,
    spec_hn_upgrade,
    spec_hn_websocket,
    HttpMethod,
    HttpRequest,
    HttpResponse,
};
use crate::machine::{HandshakeMachine, StageResult};
use crate::websocket::{OperationMode, WebSocketContext};

verus! {

/// What validating a client upgrade request yields: the first broken
/// rule, in order, or nothing when every rule holds.
pub open spec fn spec_request_rule_error(req: HttpRequest) -> Option<Error> {
    let hs = req.headers@;
    if req.method != HttpMethod::GET {
        Some(Error::Protocol(ProtocolError::InvalidHttpMethod))
    } else if !crate::http::spec_http_version_at_least_11(req.version@) {
        Some(Error::Protocol(ProtocolError::InvalidHttpVersion))
    } else if !(spec_find_header(hs, spec_hn_connection()) matches Some(cv)
        && spec_contains_token(cv, spec_hn_upgrade())) {
        Some(Error::Protocol(ProtocolError::MissingConnectionUpgradeHeader))
    } else if !(spec_find_header(hs, spec_hn_upgrade()) matches Some(uv) && spec_eq_ignore_case(
        uv,
        spec_hn_websocket(),
    )) {
        Some(Error::Protocol(ProtocolError::MissingUpgradeHeader))
    } else if !(spec_find_header(hs, spec_hn_sec_websocket_version()) matches Some(vv) && vv
        == spec_hn_thirteen()) {
        Some(Error::Protocol(ProtocolError::MissingVersionHeader))
    } else if spec_find_header(hs, spec_hn_sec_websocket_key()) is None {
        Some(Error::Protocol(ProtocolError::MissingKeyHeader))
    } else {
        None
    }
}

/// Create the `101 Switching Protocols` response for an upgrade
/// request, after checking every rule the protocol puts on it. The
/// response carries the accept key derived from the request's key.
pub fn create_response(req: &HttpRequest) -> (r: Result<HttpResponse, Error>)
    ensures
        match r {
            Ok(resp) => spec_request_rule_error(*req) is None && resp.status_code == 101
                && resp.body is None && spec_find_header(
                resp.headers@,
                spec_hn_sec_websocket_accept(),
            ) == Some(
                spec_accept_key_of(
                    spec_find_header(req.headers@, spec_hn_sec_websocket_key()).unwrap(),
                ),
            ) && (spec_find_header(resp.headers@, spec_hn_connection()) matches Some(cv) && cv
                == spec_hn_upgrade()) && (spec_find_header(
                resp.headers@,
                spec_hn_upgrade(),
            ) matches Some(uv) && uv == spec_hn_websocket()),
            Err(e) => spec_request_rule_error(*req) == Some(e),
        },
{
    if !matches!(req.method, HttpMethod::GET) {
        return Err(Error::Protocol(ProtocolError::InvalidHttpMethod));
    }
    if !crate::http::http_version_at_least_11(&req.version) {
        return Err(Error::Protocol(ProtocolError::InvalidHttpVersion));
    }
    let connection_ok = match req.get_header(&crate::http::hn_connection()) {
        Some(cv) => header_contains_token(cv, &crate::http::hn_upgrade()),
        None => false,
    };
    if !connection_ok {
        return Err(Error::Protocol(ProtocolError::MissingConnectionUpgradeHeader));
    }
    let upgrade_ok = match req.get_header(&crate::http::hn_upgrade()) {
        Some(uv) => eq_ignore_case(uv, &crate::http::hn_websocket()),
        None => false,
    };
    if !upgrade_ok {
        return Err(Error::Protocol(ProtocolError::MissingUpgradeHeader));
    }
    let version_ok = match req.get_header(&crate::http::hn_sec_websocket_version()) {
        Some(vv) => crate::http::bytes_eq(vv, &crate::http::hn_thirteen()),
        None => false,
    };
    if !version_ok {
        return Err(Error::Protocol(ProtocolError::MissingVersionHeader));
    }
    let key: Vec<u8> = match req.get_header(&crate::http::hn_sec_websocket_key()) {
        Some(kv) => {
            let k = crate::http::copy_range(kv, 0, kv.len());
            assert(k@ =~= kv@);
            k
        },
        None => {
            return Err(Error::Protocol(ProtocolError::MissingKeyHeader));
        },
    };
    assert(Some(key@) == spec_find_header(req.headers@, spec_hn_sec_websocket_key()));
    let accept = derive_accept_key(&key);
    let mut headers: Vec<(Vec<u8>, Vec<u8>)> = Vec::new();
    headers.push((crate::http::hn_connection(), crate::http::hn_upgrade()));
    headers.push((crate::http::hn_upgrade(), crate::http::hn_websocket()));
    headers.push((crate::http::hn_sec_websocket_accept(), accept));
    let resp = HttpResponse {
        status_code: 101,
        reason_phrase: crate::http::hn_switching_protocols(),
        headers,
        body: None,
    };
    proof {
        let hs = resp.headers@;
        assert(hs[0].0@ == spec_hn_connection() && hs[1].0@ == spec_hn_upgrade() && hs[2].0@
            == spec_hn_sec_websocket_accept());
        // The three header names have pairwise different lengths.
        assert(crate::http::spec_lower_seq(spec_hn_connection()).len() == 10
            && crate::http::spec_lower_seq(spec_hn_upgrade()).len() == 7
            && crate::http::spec_lower_seq(spec_hn_sec_websocket_accept()).len() == 20);
        assert(spec_find_header(hs, spec_hn_connection()) == Some(spec_hn_upgrade()));
        assert(!spec_eq_ignore_case(hs[0].0@, spec_hn_upgrade()));
        assert(hs.skip(1)[0] == hs[1]);
        assert(spec_find_header(hs.skip(1), spec_hn_upgrade()) == Some(spec_hn_websocket()));
        assert(!spec_eq_ignore_case(hs[0].0@, spec_hn_sec_websocket_accept()));
        assert(!spec_eq_ignore_case(hs[1].0@, spec_hn_sec_websocket_accept()));
        crate::http::lemma_find_header_skip(hs, spec_hn_sec_websocket_accept(), 2);
        assert(hs.skip(2)[0] == hs[2]);
        assert(spec_find_header(hs.skip(2), spec_hn_sec_websocket_accept()) == Some(
            spec_accept_key_of(
                spec_find_header(req.headers@, spec_hn_sec_websocket_key()).unwrap(),
            ),
        ));
    }
    Ok(resp)
}

/// Serialize a handshake response into wire bytes.
pub fn write_response(res: &HttpResponse) -> (r: Vec<u8>)
    ensures
        r@ == crate::http::spec_serialize_response(*res),
{
    res.to_bytes()
}

/// The callback a server may hand in: it sees the parsed request and
/// the prepared response, and may change the response or reject the
/// connection with an error response of its own.
pub trait Callback: Sized {
    /// Called when the server has read the request and is ready to
    /// respond. Returning an error response rejects the connection.
    fn on_request(self, req: &HttpRequest, response: HttpResponse) -> Result<
        HttpResponse,
        HttpResponse,
    >;
}

/// A callback that accepts the prepared response unchanged.
#[derive(Clone, Copy, Debug)]
pub struct NoCallback;

impl Callback for NoCallback {
    /// Accept the prepared response unchanged.
    fn on_request(self, req: &HttpRequest, response: HttpResponse) -> Result<
        HttpResponse,
        HttpResponse,
    > {
        Ok(response)
    }
}

/// The server handshake role.
#[derive(Debug)]
pub struct ServerHandshake<C> {
    /// The callback run once the request has been read, if any.
    pub callback: Option<C>,
    /// The configuration for the session the handshake creates.
    pub config: Option<WebSocketConfig>,
    /// The rejection to report once it has been written out.
    pub error_response: Option<HttpResponse>,
}

impl<C: Callback> ServerHandshake<C> {
    /// Start a server handshake: read the client's request.
    pub fn start(callback: C, config: Option<WebSocketConfig>) -> (r: MidHandshake<
        ServerHandshake<C>,
    >)
        requires
            config matches Some(c) ==> c.is_valid(),
        ensures
            r.machine.wf(),
            r.role.wf_role(),
            r.machine.state matches crate::machine::HandshakeState::Reading(b, c) && b@.len() == 0
                && c.packets == 0 && c.bytes == 0,
            r.role.callback == Some(callback),
            r.role.config == config,
            r.role.error_response is None,
    {
        MidHandshake {
            machine: HandshakeMachine::start_read(),
            role: ServerHandshake { callback: Some(callback), config, error_response: None },
        }
    }
}

impl<C: Callback> HandshakeRole for ServerHandshake<C> {
    type IncomingData = HttpRequest;

    type FinalResult = WebSocketContext;

    /// The configuration, when given, is valid.
    open spec fn wf_role(&self) -> bool {
        self.config matches Some(c) ==> c.is_valid()
    }

    /// The server's stage table. A finished read is refused when bytes
    /// follow the request or a request rule is broken; otherwise the
    /// callback decides, and whatever it answered, what goes out is a
    /// serialized response, with a rejection recorded for later. A
    /// finished write reports the recorded rejection, or hands over a
    /// fresh server-mode session.
    open spec fn spec_stage_rel(
        pre: Self,
        post: Self,
        finish: StageResult<HttpRequest>,
        r: Result<ProcessingResult<WebSocketContext>, Error>,
    ) -> bool {
        match finish {
            StageResult::DoneReading { result, tail } => {
                if tail@.len() > 0 {
                    r == Err::<ProcessingResult<WebSocketContext>, Error>(
                        Error::Protocol(ProtocolError::JunkAfterRequest),
                    ) && post == pre
                } else if spec_request_rule_error(result) is Some {
                    r == Err::<ProcessingResult<WebSocketContext>, Error>(
                        spec_request_rule_error(result).unwrap(),
                    ) && post == pre
                } else {
                    &&& post.config == pre.config
                    &&& post.callback is None
                    &&& (pre.callback is None ==> (r matches Ok(p) && p matches
                        ProcessingResult::Continue(_)))
                    &&& match r {
                        Ok(ProcessingResult::Continue(m)) => exists|resp: HttpResponse|
                            {
                                &&& m.state matches crate::machine::HandshakeState::Writing(d, p)
                                    && p == 0 && d@ == #[trigger] crate::http::spec_serialize_response(resp)
                                &&& (post.error_response == pre.error_response || (
                                post.error_response == Some(resp) && !(200 <= resp.status_code
                                    < 300)))
                            },
                        Err(e) => e == Error::Protocol(ProtocolError::CustomResponseSuccessful)
                            && post.error_response == pre.error_response,
                        Ok(ProcessingResult::Done(_)) => false,
                    }
                }
            },
            StageResult::DoneWriting => {
                match pre.error_response {
                    Some(er) => r == Err::<ProcessingResult<WebSocketContext>, Error>(
                        Error::Http(er),
                    ) && post == (ServerHandshake { error_response: None, ..pre }),
                    None => r matches Ok(p) && p matches ProcessingResult::Done(ws) && post == pre
                        && {
                        &&& ws.mode is Server
                        &&& ws.state is Active
                        &&& ws.incomplete is None
                        &&& ws.additional_send is None
                        &&& !ws.eof
                        &&& ws.frame.unread() == Seq::<u8>::empty()
                        &&& ws.frame.header is None
                        &&& ws.out_bytes() == Seq::<u8>::empty()
                        &&& (pre.config matches Some(c) ==> ws.config == c)
                    },
                }
            },
        }
    }

    /// After reading the request, validate it, run the callback and
    /// write the response; after writing, either report the rejection
    /// or hand over a server session.
    fn stage_finished(&mut self, finish: StageResult<HttpRequest>) -> (r: Result<
        ProcessingResult<WebSocketContext>,
        Error,
    >) {
        match finish {
            StageResult::DoneReading { result, tail } => {
                if tail.len() > 0 {
                    return Err(Error::Protocol(ProtocolError::JunkAfterRequest));
                }
                let response = match create_response(&result) {
                    Ok(resp) => resp,
                    Err(e) => {
                        return Err(e);
                    },
                };
                let callback_result = match self.callback.take() {
                    Some(callback) => callback.on_request(&result, response),
                    None => Ok(response),
                };
                match callback_result {
                    Ok(resp) => {
                        let output = write_response(&resp);
                        proof {
                            assert(output@.len() >= 9);
                        }
                        Ok(ProcessingResult::Continue(HandshakeMachine::start_write(output)))
                    },
                    Err(resp) => {
                        if 200 <= resp.status_code && resp.status_code < 300 {
                            return Err(Error::Protocol(ProtocolError::CustomResponseSuccessful));
                        }
                        let output = write_response(&resp);
                        proof {
                            assert(output@.len() >= 9);
                        }
                        self.error_response = Some(resp);
                        Ok(ProcessingResult::Continue(HandshakeMachine::start_write(output)))
                    },
                }
            },
            StageResult::DoneWriting => {
                match self.error_response.take() {
                    Some(err) => Err(Error::Http(err)),
                    None => Ok(
                        ProcessingResult::Done(
                            WebSocketContext::new(OperationMode::Server, self.config),
                        ),
                    ),
                }
            },
        }
    }
}

} // verus!
