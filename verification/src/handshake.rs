//! Handshake protocol: the request/response exchange that establishes a
//! fresh session key between two nodes.
//!
//! The session key is never carried on the wire. Each side contributes an
//! ephemeral X25519 public value — the initiator in its request, the
//! responder in its response — and derives the key locally from its own
//! ephemeral private key and the peer's public value, so only the two
//! participants can compute it.

use vstd::prelude::*;
use vstd::string::StringExecFns;
use crate::protocol::{
    HandshakeRequest, HandshakeResponse, NodeStatus, TransportAddr, PROTOCOL_VERSION,
};
use crate::registry::{Peer, PeerV};

verus! {

/// Ring's ephemeral agreement key, opaque to specifications and consumed
/// by the one agreement it takes part in.
#[verifier::external_type_specification]
#[verifier::external_body]
pub struct ExEphemeralPrivateKey(ring::agreement::EphemeralPrivateKey);

/// Why a handshake step failed.
#[derive(Clone, Copy, Debug, PartialEq, Eq, Structural)]
pub enum HandshakeError {
    /// The secure random source failed while drawing an ephemeral key.
    KeyGenFailed,
    /// The peer's key-exchange contribution was unusable.
    KeyExchangeFailed,
    /// The request speaks a protocol version this node does not.
    VersionMismatch,
    /// The request cannot fit a packet.
    RequestTooLarge,
}

/// Relies on ring's X25519 `EphemeralPrivateKey::generate` and
/// `compute_public_key`: the key is freshly random, so nothing is
/// promised beyond the public form's 32-byte width.
#[verifier::external_body]
fn x25519_generate() -> (r: Option<(ring::agreement::EphemeralPrivateKey, Vec<u8>)>)
    ensures
        r matches Some(p) ==> p.1@.len() == 32,
{
    let rng = ring::rand::SystemRandom::new();
    let private_key = match ring::agreement::EphemeralPrivateKey::generate(
        &ring::agreement::X25519,
        &rng,
    ) {
        Ok(k) => k,
        Err(_) => return None,
    };
    let public_key = match private_key.compute_public_key() { Ok(p) => p, Err(_) => return None };
    Some((private_key, public_key.as_ref().to_vec()))
}

/// Relies on ring's X25519 `agree_ephemeral`: the shared secret depends
/// on the consumed private key, so nothing is promised beyond its
/// 32-byte width; it fails on an unusable peer contribution.
#[verifier::external_body]
fn x25519_agree(my_priv: ring::agreement::EphemeralPrivateKey, peer_pub: &Vec<u8>) -> (r: Option<
    Vec<u8>,
>)
    ensures
        r matches Some(k) ==> k@.len() == 32,
{
    let peer = ring::agreement::UnparsedPublicKey::new(
        &ring::agreement::X25519,
        peer_pub.as_slice(),
    );
    ring::agreement::agree_ephemeral(my_priv, &peer, |secret| secret.to_vec()).ok()
}

/// The initiator side of one handshake attempt.
pub enum InitiatorState {
    /// No attempt in flight.
    Idle,
    /// A request is out; the ephemeral private key waits for the
    /// response's contribution.
    AwaitingResponse { eph: ring::agreement::EphemeralPrivateKey, retries: u32, sent_at: u64 },
    /// The session key has been derived.
    Established { session_key: Vec<u8> },
    /// The attempt was abandoned.
    Failed,
}

pub ghost enum InitiatorPhase {
    Idle,
    AwaitingResponse { retries: u32, sent_at: u64 },
    Established { session_key: Seq<u8> },
    Failed,
}

impl View for InitiatorState {
    type V = InitiatorPhase;

    open spec fn view(&self) -> InitiatorPhase {
        match self {
            InitiatorState::Idle => InitiatorPhase::Idle,
            InitiatorState::AwaitingResponse { eph, retries, sent_at } => (
            InitiatorPhase::AwaitingResponse { retries: *retries, sent_at: *sent_at }),
            InitiatorState::Established { session_key } => (InitiatorPhase::Established {
                session_key: session_key@,
            }),
            InitiatorState::Failed => InitiatorPhase::Failed,
        }
    }
}

/// Starts a handshake: draws an ephemeral key pair and builds the request
/// that carries its public value with this node's identity. Fails only
/// when the random source does.
pub fn initiate(
    node_id: &String,
    node_name: &String,
    capabilities: u32,
    now: u64,
) -> (r: Result<(InitiatorState, HandshakeRequest), HandshakeError>)
    ensures
        match r {
            Ok(p) => {
                &&& p.0@ == (InitiatorPhase::AwaitingResponse { retries: 0u32, sent_at: now })
                &&& p.1@.version == PROTOCOL_VERSION
                &&& p.1@.node_id == node_id@
                &&& p.1@.node_name == node_name@
                &&& p.1@.public_key.len() == 32
                &&& p.1@.supported_protocols == seq![PROTOCOL_VERSION]
                &&& p.1@.capabilities == capabilities
            },
            Err(e) => e == HandshakeError::KeyGenFailed,
        },
{
    let (eph, public_key) = match x25519_generate() {
        Some(p) => p,
        None => {
            return Err(HandshakeError::KeyGenFailed);
        },
    };
    let mut supported_protocols: Vec<u8> = Vec::new();
    supported_protocols.push(PROTOCOL_VERSION);
    proof {
        assert(supported_protocols@ =~= seq![PROTOCOL_VERSION]);
    }
    let request = HandshakeRequest {
        version: PROTOCOL_VERSION,
        public_key,
        node_id: node_id.clone(),
        node_name: node_name.clone(),
        supported_protocols,
        capabilities,
    };
    Ok((InitiatorState::AwaitingResponse { eph, retries: 0, sent_at: now }, request))
}

/// Consumes a response on the initiator side. Anything received outside
/// `AwaitingResponse` is dropped without a state change or a peer record.
/// A non-zero status abandons the attempt. An accepted response derives
/// the session key from the responder's contribution and records the
/// responder as an online peer; an unusable contribution abandons the
/// attempt and records nothing.
pub fn on_response(state: InitiatorState, resp: &HandshakeResponse, from: TransportAddr, now: u64)
    -> (r: (InitiatorState, Option<Peer>))
    ensures
        !(state@ is AwaitingResponse) ==> r.0@ == state@ && r.1 is None,
        state@ is AwaitingResponse && resp@.status != 0 ==> r.0@ == InitiatorPhase::Failed && r.1
            is None,
        state@ is AwaitingResponse && resp@.status == 0 ==> {
            ||| {
                &&& r.0@ matches InitiatorPhase::Established { session_key } && session_key.len()
                    == 32
                &&& r.1 matches Some(p) && p@ == (PeerV {
                    node_id: resp@.node_id,
                    node_name: resp@.node_name,
                    address: from@,
                    virtual_ip: Seq::empty(),
                    public_key: resp@.public_key,
                    status: NodeStatus::Online,
                    last_seen: now,
                    capabilities: 0u32,
                })
            }
            ||| (r.0@ == InitiatorPhase::Failed && r.1 is None)
        },
{
    match state {
        InitiatorState::AwaitingResponse { eph, retries, sent_at } => {
            if resp.status != 0 {
                return (InitiatorState::Failed, None);
            }
            match x25519_agree(eph, &resp.public_key) {
                Some(session_key) => {
                    let peer = Peer {
                        node_id: resp.node_id.clone(),
                        node_name: resp.node_name.clone(),
                        address: from,
                        virtual_ip: String::new(),
                        public_key: crate::protocol::clone_bytes(&resp.public_key),
                        status: NodeStatus::Online,
                        last_seen: now,
                        capabilities: 0,
                    };
                    (InitiatorState::Established { session_key }, Some(peer))
                },
                None => (InitiatorState::Failed, None),
            }
        },
        other => (other, None),
    }
}

/// Advances the initiator past a response deadline: below the retry
/// bound the attempt stays in flight with its count raised and asks for a
/// resend; at the bound it is abandoned. Outside `AwaitingResponse`
/// nothing changes and nothing is resent.
pub fn on_timeout(state: InitiatorState, max_retries: u32, now: u64) -> (r: (
    InitiatorState,
    bool,
))
    ensures
        !(state@ is AwaitingResponse) ==> r.0@ == state@ && r.1 == false,
        state@ matches InitiatorPhase::AwaitingResponse { retries, .. } ==> {
            if retries < max_retries {
                &&& r.0@ == (InitiatorPhase::AwaitingResponse {
                    retries: (retries + 1) as u32,
                    sent_at: now,
                })
                &&& r.1 == true
            } else {
                &&& r.0@ == InitiatorPhase::Failed
                &&& r.1 == false
            }
        },
{
    match state {
        InitiatorState::AwaitingResponse { eph, retries, sent_at } => {
            if retries < max_retries {
                (InitiatorState::AwaitingResponse { eph, retries: retries + 1, sent_at: now }, true)
            } else {
                (InitiatorState::Failed, false)
            }
        },
        other => (other, false),
    }
}

/// Answers a handshake request on the responder side: draws an ephemeral
/// key pair, derives the session key from the request's contribution,
/// and builds the response carrying this node's identity and the
/// ephemeral public value — never the session key itself, whose wire
/// field stays empty. The requester becomes an online peer. A request
/// for a foreign protocol version is refused; key-exchange failures
/// refuse the request without recording anything.
pub fn respond(
    req: &HandshakeRequest,
    local_node_id: &String,
    local_node_name: &String,
    from: TransportAddr,
    now: u64,
) -> (r: Result<(HandshakeResponse, Peer, Vec<u8>), HandshakeError>)
    ensures
        req@.version != PROTOCOL_VERSION <==> r == Err::<
            (HandshakeResponse, Peer, Vec<u8>),
            HandshakeError,
        >(HandshakeError::VersionMismatch),
        r matches Err(e) ==> e == HandshakeError::VersionMismatch || e
            == HandshakeError::KeyGenFailed || e == HandshakeError::KeyExchangeFailed,
        r matches Ok(p) ==> {
            &&& p.0@.version == PROTOCOL_VERSION
            &&& p.0@.public_key.len() == 32
            &&& p.0@.node_id == local_node_id@
            &&& p.0@.node_name == local_node_name@
            &&& p.0@.status == 0
            &&& p.0@.message == "Handshake successful"@
            &&& p.0@.session_key == Seq::<u8>::empty()
            &&& p.1@ == (PeerV {
                node_id: req@.node_id,
                node_name: req@.node_name,
                address: from@,
                virtual_ip: Seq::empty(),
                public_key: req@.public_key,
                status: NodeStatus::Online,
                last_seen: now,
                capabilities: req@.capabilities,
            })
            &&& p.2@.len() == 32
        },
{
    if req.version != PROTOCOL_VERSION {
        return Err(HandshakeError::VersionMismatch);
    }
    let (eph, public_key) = match x25519_generate() {
        Some(p) => p,
        None => {
            return Err(HandshakeError::KeyGenFailed);
        },
    };
    let session_key = match x25519_agree(eph, &req.public_key) {
        Some(k) => k,
        None => {
            return Err(HandshakeError::KeyExchangeFailed);
        },
    };
    let response = HandshakeResponse {
        version: PROTOCOL_VERSION,
        public_key,
        node_id: local_node_id.clone(),
        node_name: local_node_name.clone(),
        status: 0,
        message: String::from_str("Handshake successful"),
        session_key: Vec::new(),
    };
    let peer = Peer {
        node_id: req.node_id.clone(),
        node_name: req.node_name.clone(),
        address: from,
        virtual_ip: String::new(),
        public_key: crate::protocol::clone_bytes(&req.public_key),
        status: NodeStatus::Online,
        last_seen: now,
        capabilities: req.capabilities,
    };
    proof {
        assert(response.session_key@ =~= Seq::<u8>::empty());
        assert(peer.virtual_ip@ =~= Seq::<char>::empty());
    }
    Ok((response, peer, session_key))
}

} // verus!
