//! Handshake control: the accept-key derivation and the driver that
//! carries a role through the handshake machine.
use vstd::prelude::*;
use crate::error::Error;
use crate::machine::{HandshakeMachine, IoEvent, RoundResult, StageResult, TryParse};

verus! {

/// What SHA-1 yields for given bytes; a function of the input alone.
pub uninterp spec fn sha1_of(data: Seq<u8>) -> Seq<u8>;

/// What standard padded base64 yields for given bytes; a function of
/// the input alone.
pub uninterp spec fn base64_of(data: Seq<u8>) -> Seq<u8>;

/// Relies on the sha1 crate's `Digest` implementation: a 20-byte digest
/// that depends on the input bytes alone.
#[verifier::external_body]
fn sha1_digest(data: &Vec<u8>) -> (r: Vec<u8>)
    ensures
        r@ == sha1_of(data@),
        r@.len() == 20,
{
    let mut hasher: sha1::Sha1 = <sha1::Sha1 as sha1::Digest>::new();
    <sha1::Sha1 as sha1::Digest>::update(&mut hasher, data.as_slice());
    <sha1::Sha1 as sha1::Digest>::finalize(hasher).to_vec()
}

/// Relies on the base64 crate's `STANDARD` engine: padded output, four
/// bytes for every started group of three, depending on the input alone.
#[verifier::external_body]
fn base64_encode(data: &Vec<u8>) -> (r: Vec<u8>)
    ensures
        r@ == base64_of(data@),
        r@.len() == 4 * ((data@.len() + 2) / 3),
{
    base64::Engine::encode(&base64::engine::general_purpose::STANDARD, data.as_slice()).into_bytes()
}

/// Relies on `rand::random`: 16 bytes from a nondeterministic source.
/// Nothing is promised of the values.
#[verifier::external_body]
fn random_key_bytes() -> (r: Vec<u8>)
    ensures
        r@.len() == 16,
{
    let bytes: [u8; 16] = rand::random();
    bytes.to_vec()
}

/// The fixed GUID appended to the peer's key before hashing.
pub open spec fn spec_ws_guid() -> Seq<u8> {
    seq![
        50u8, 53, 56, 69, 65, 70, 65, 53, 45, 69, 57, 49, 52, 45, 52, 55, 68, 65, 45, 57, 53, 67,
        65, 45, 67, 53, 65, 66, 48, 68, 67, 56, 53, 66, 49, 49,
    ]
}

/// The accept key derived from a request key: base64 of the SHA-1 of
/// the key followed by the GUID.
pub open spec fn spec_accept_key_of(key: Seq<u8>) -> Seq<u8> {
    base64_of(sha1_of(key + spec_ws_guid()))
}

/// The bytes of the GUID `258EAFA5-E914-47DA-95CA-C5AB0DC85B11`.
fn ws_guid_bytes() -> (r: Vec<u8>)
    ensures
        r@ == spec_ws_guid(),
{
    let v: Vec<u8> = vec![
        50u8, 53, 56, 69, 65, 70, 65, 53, 45, 69, 57, 49, 52, 45, 52, 55, 68, 65, 45, 57, 53, 67,
        65, 45, 67, 53, 65, 66, 48, 68, 67, 56, 53, 66, 49, 49,
    ];
    assert(v@ =~= spec_ws_guid());
    v
}

/// Derive the `Sec-WebSocket-Accept` header value from the value of a
/// `Sec-WebSocket-Key` request header.
pub fn derive_accept_key(req_key: &Vec<u8>) -> (r: Vec<u8>)
    ensures
        r@ == spec_accept_key_of(req_key@),
        r@.len() == 28,
{
    let mut input: Vec<u8> = Vec::new();
    input.extend_from_slice(req_key.as_slice());
    let guid = ws_guid_bytes();
    input.extend_from_slice(guid.as_slice());
    assert(input@ =~= req_key@ + spec_ws_guid());
    let digest = sha1_digest(&input);
    base64_encode(&digest)
}

/// Generate a random value for the `Sec-WebSocket-Key` header: sixteen
/// random bytes, base64-encoded.
pub fn generate_key() -> (r: Vec<u8>)
    ensures
        r@.len() == 24,
        exists|b: Seq<u8>| b.len() == 16 && r@ == #[trigger] base64_of(b),
{
    let bytes = random_key_bytes();
    let r = base64_encode(&bytes);
    proof {
        assert(r@ == base64_of(bytes@));
    }
    r
}

/// A role in the opening handshake: what the machine parses for it and
/// what to do when a read or write stage finishes.
pub trait HandshakeRole: Sized {
    /// The message the role reads from the peer.
    type IncomingData: TryParse;

    /// What a finished handshake hands back.
    type FinalResult;

    /// The role's own invariant, established when the handshake starts.
    spec fn wf_role(&self) -> bool;

    /// What advancing the role with a finished stage does: each role
    /// states its own table here.
    spec fn spec_stage_rel(
        pre: Self,
        post: Self,
        finish: StageResult<Self::IncomingData>,
        r: Result<ProcessingResult<Self::FinalResult>, Error>,
    ) -> bool;

    /// Advance the role once a machine stage finishes, per the role's
    /// own table. A continuing machine is handed back well-formed.
    fn stage_finished(&mut self, finish: StageResult<Self::IncomingData>) -> (r: Result<
        ProcessingResult<Self::FinalResult>,
        Error,
    >)
        requires
            old(self).wf_role(),
        ensures
            final(self).wf_role(),
            Self::spec_stage_rel(*old(self), *final(self), finish, r),
            (match r {
                Ok(ProcessingResult::Continue(m)) => m.wf(),
                _ => true,
            }),
    ;
}

/// What a finished stage leads to.
#[derive(Debug)]
pub enum ProcessingResult<FinalResult> {
    /// The handshake goes on with a new machine stage.
    Continue(HandshakeMachine),
    /// The handshake is done.
    Done(FinalResult),
}

/// A handshake in progress: the role and the machine driving it.
#[derive(Debug)]
pub struct MidHandshake<Role: HandshakeRole> {
    /// The handshake role.
    pub role: Role,
    /// The handshake machine instance.
    pub machine: HandshakeMachine,
}

/// Why a handshake step did not produce the final result.
#[derive(Debug)]
pub enum HandshakeError<Role: HandshakeRole> {
    /// The handshake needs more transport events; drive it again.
    Interrupted(MidHandshake<Role>),
    /// The handshake failed.
    Failure(Error),
}

impl<Role: HandshakeRole> MidHandshake<Role> {
    /// Allows access to the machine.
    pub fn get_ref(&self) -> (r: &HandshakeMachine)
        ensures
            r == &self.machine,
    {
        &self.machine
    }

    /// Allows mutable access to the machine.
    pub fn get_mut(&mut self) -> (r: &mut HandshakeMachine)
        ensures
            *r == old(self).machine,
            final(self).machine == *final(r),
            final(self).role == old(self).role,
    {
        &mut self.machine
    }

    /// Advance the handshake by one transport event: either it finishes
    /// with the role's final result, or it hands itself back to be
    /// driven with the next event.
    pub fn handshake(self, event: IoEvent) -> (r: Result<
        Role::FinalResult,
        HandshakeError<Role>,
    >)
        requires
            self.machine.wf(),
            self.machine.spec_event_matches(event),
            self.role.wf_role(),
        ensures
            (match r {
                Err(HandshakeError::Interrupted(mh)) => mh.machine.wf() && mh.role.wf_role(),
                _ => true,
            }),
            exists|step: Result<RoundResult<Role::IncomingData>, Error>|
                #[trigger] self.machine.spec_round_rel(event, step) && (match step {
                    Err(e) => r matches Err(he) && he matches HandshakeError::Failure(e2) && e2
                        == e,
                    Ok(RoundResult::WouldBlock(m)) => r matches Err(he) && he matches
                        HandshakeError::Interrupted(mh) && mh.machine == m && mh.role == self.role,
                    Ok(RoundResult::Incomplete(m)) => r matches Err(he) && he matches
                        HandshakeError::Interrupted(mh) && mh.machine == m && mh.role == self.role,
                    Ok(RoundResult::StageFinished(s)) => exists|
                        role2: Role,
                        inner: Result<ProcessingResult<Role::FinalResult>, Error>,
                    |
                        #[trigger] Role::spec_stage_rel(self.role, role2, s, inner) && (
                        match inner {
                            Err(e) => r matches Err(he) && he matches HandshakeError::Failure(e2)
                                && e2 == e,
                            Ok(ProcessingResult::Done(res)) => r matches Ok(res2) && res2 == res,
                            Ok(ProcessingResult::Continue(m)) => r matches Err(he) && he matches
                                HandshakeError::Interrupted(mh) && mh.machine == m && mh.role
                                == role2,
                        }),
                }),
    {
        let mut role = self.role;
        let ghost role0 = role;
        let step = self.machine.single_round::<Role::IncomingData>(event);
        let ghost step0 = step;
        match step {
            Err(e) => Err(HandshakeError::Failure(e)),
            Ok(RoundResult::WouldBlock(m)) => Err(
                HandshakeError::Interrupted(MidHandshake { role, machine: m }),
            ),
            Ok(RoundResult::Incomplete(m)) => Err(
                HandshakeError::Interrupted(MidHandshake { role, machine: m }),
            ),
            Ok(RoundResult::StageFinished(s)) => {
                let ghost s0 = s;
                let inner = role.stage_finished(s);
                proof {
                    assert(Role::spec_stage_rel(role0, role, s0, inner));
                }
                match inner {
                    Err(e) => Err(HandshakeError::Failure(e)),
                    Ok(ProcessingResult::Done(res)) => Ok(res),
                    Ok(ProcessingResult::Continue(m)) => Err(
                        HandshakeError::Interrupted(MidHandshake { role, machine: m }),
                    ),
                }
            },
        }
    }
}

} // verus!
