//! Packet dispatcher: decodes and validates every inbound datagram,
//! routes it by message type to the handshake protocol, the peer
//! registry or the payload path, and builds the outbound datagrams for
//! heartbeats, discovery and application traffic.

use vstd::prelude::*;
use vstd::utf8::encode_utf8;
use crate::codec::{
    spec_decode_packet, spec_encode_packet, spec_verify_checksum, verify_checksum, DecodeError,
    EncodeError,
};
use crate::crypto::{spec_key_len, CryptoAlgorithm, CryptoContext, CryptoError, spec_aead_sealed,
    spec_nonce12};
use crate::endian::spec_u64_from_be;
use crate::handshake::{
    initiate, on_response, on_timeout, respond, HandshakeError, InitiatorPhase, InitiatorState,
};
use crate::messages::{
    decode_data_forward, decode_handshake_request, decode_handshake_response, decode_heartbeat,
    decode_node_info, encode_handshake_response, encode_heartbeat, encode_node_info,
    spec_decode_data_forward, spec_decode_handshake_request, spec_decode_handshake_response,
    spec_decode_heartbeat, spec_decode_node_info, spec_encode_handshake_response,
    spec_encode_heartbeat, spec_encode_node_info,
};
use crate::protocol::{
    clone_bytes, HandshakeResponseV, Heartbeat, HeartbeatV, MessageType, NodeInfo, NodeStatus,
    Packet, PacketV, TransportAddr, MAGIC, MAX_MESSAGE_LENGTH, PROTOCOL_VERSION,
};
use crate::registry::{spec_find_peer, spec_upserted, Peer, PeerRegistry, PeerV};

verus! {

/// Why an inbound packet was dropped. Dropping is never fatal: the
/// receive loop always continues.
#[derive(Clone, Copy, Debug, PartialEq, Eq, Structural)]
pub enum DropReason {
    /// Shorter than the fixed header.
    Malformed,
    /// Magic or version disagrees with the running protocol.
    MagicMismatch,
    /// The message-type tag is outside the declared range.
    UnknownType,
    /// The length field disagrees with the payload actually present.
    LengthMismatch,
    /// The checksum does not verify against the payload.
    BadChecksum,
    /// The payload does not parse as its message type requires.
    PayloadInvalid,
    /// A handshake response arrived with no pending request.
    Unexpected,
    /// Authentication or key exchange failed.
    CryptoFailed,
    /// A valid message of a type this core carries but does not route.
    Unhandled,
    /// A reply was owed but could not be built.
    ReplyFailed,
}

/// What became of one inbound datagram.
pub enum DispatchOutcome {
    /// The packet was rejected at some stage; nothing was mutated except
    /// where the handshake protocol itself abandons an attempt.
    Dropped(DropReason),
    /// The packet was consumed and state updated; nothing to send.
    Handled,
    /// The packet was consumed; this datagram answers it to the source.
    Reply(Vec<u8>),
    /// A data-forward frame authenticated and decrypted: these bytes go
    /// to the tunnel device.
    Deliver(Vec<u8>),
}

/// Aggregate counters for the query surface.
#[derive(Clone, Copy, Debug, PartialEq, Eq, Structural)]
pub struct Stats {
    pub packets_received: u64,
    pub packets_dropped: u64,
    pub frames_delivered: u64,
}

/// A failure surfaced to the caller of an outbound send.
#[derive(Clone, Copy, Debug, PartialEq, Eq, Structural)]
pub enum SendError {
    /// The destination id is absent from the registry.
    PeerNotFound,
    /// The packet could not be serialized within its limits.
    EncodeFailed,
}

fn bump(x: u64) -> (r: u64)
    ensures
        r == spec_bump(x),
{
    if x < u64::MAX {
        x + 1
    } else {
        x
    }
}

pub open spec fn spec_bump(x: u64) -> u64 {
    if x < u64::MAX {
        (x + 1) as u64
    } else {
        x
    }
}

/// The node's protocol engine: identity, peer registry, crypto state and
/// the in-flight handshake, driven by inbound datagrams and timers.
pub struct NetworkManager {
    node_id: String,
    node_name: String,
    public_key: Vec<u8>,
    local_addr: TransportAddr,
    registry: PeerRegistry,
    crypto: CryptoContext,
    session: Option<CryptoContext>,
    initiator: InitiatorState,
    stats: Stats,
}

impl NetworkManager {
    pub closed spec fn spec_node_id(&self) -> Seq<char> {
        self.node_id@
    }

    pub closed spec fn spec_node_name(&self) -> Seq<char> {
        self.node_name@
    }

    pub closed spec fn spec_public_key(&self) -> Seq<u8> {
        self.public_key@
    }

    pub closed spec fn spec_local_addr(&self) -> crate::protocol::TransportAddrV {
        self.local_addr@
    }

    pub closed spec fn spec_registry(&self) -> Seq<PeerV> {
        self.registry@
    }

    pub closed spec fn spec_session(&self) -> Option<CryptoContext> {
        self.session
    }

    pub closed spec fn spec_initiator(&self) -> InitiatorPhase {
        self.initiator@
    }

    pub closed spec fn spec_stats(&self) -> Stats {
        self.stats
    }

    /// The key the data path seals and opens with: the established
    /// session key when there is one, the configured key before that.
    pub open spec fn spec_active_key(&self) -> Seq<u8> {
        match self.spec_session() {
            Some(c) => c.spec_key(),
            None => self.spec_base_crypto().spec_key(),
        }
    }

    pub closed spec fn spec_base_crypto(&self) -> CryptoContext {
        self.crypto
    }

    /// The registry is consistent and every crypto context carries a key
    /// of its algorithm's width.
    pub open spec fn wf(&self) -> bool {
        &&& crate::registry::spec_ids_distinct(self.spec_registry())
        &&& self.spec_base_crypto().wf()
        &&& (self.spec_session() matches Some(c) ==> c.wf())
    }

    /// Identity and configuration do not move under packet processing.
    pub open spec fn same_identity(&self, other: &Self) -> bool {
        &&& self.spec_node_id() == other.spec_node_id()
        &&& self.spec_node_name() == other.spec_node_name()
        &&& self.spec_public_key() == other.spec_public_key()
        &&& self.spec_local_addr() == other.spec_local_addr()
    }

    /// Builds a manager around the local identity and the configured
    /// 256-bit data-plane key; rejected exactly when the key width is
    /// wrong. It starts with an empty registry, no session and no
    /// handshake in flight.
    pub fn new(
        local_addr: TransportAddr,
        node_id: String,
        node_name: String,
        public_key: Vec<u8>,
        crypto_key: &Vec<u8>,
    ) -> (r: Result<NetworkManager, CryptoError>)
        ensures
            match r {
                Ok(m) => {
                    &&& crypto_key@.len() == spec_key_len(CryptoAlgorithm::AesGcm256)
                    &&& m.wf()
                    &&& m.spec_node_id() == node_id@
                    &&& m.spec_node_name() == node_name@
                    &&& m.spec_public_key() == public_key@
                    &&& m.spec_local_addr() == local_addr@
                    &&& m.spec_registry() == Seq::<PeerV>::empty()
                    &&& m.spec_session() is None
                    &&& m.spec_initiator() == InitiatorPhase::Idle
                    &&& m.spec_base_crypto().spec_key() == crypto_key@
                    &&& m.spec_stats() == (Stats {
                        packets_received: 0u64,
                        packets_dropped: 0u64,
                        frames_delivered: 0u64,
                    })
                },
                Err(e) => crypto_key@.len() != spec_key_len(CryptoAlgorithm::AesGcm256) && e
                    == CryptoError::InvalidKey,
            },
    {
        let crypto = match CryptoContext::new(crypto_key, CryptoAlgorithm::AesGcm256) {
            Ok(c) => c,
            Err(e) => {
                return Err(e);
            },
        };
        Ok(
            NetworkManager {
                node_id,
                node_name,
                public_key,
                local_addr,
                registry: PeerRegistry::new(),
                crypto,
                session: None,
                initiator: InitiatorState::Idle,
                stats: Stats { packets_received: 0, packets_dropped: 0, frames_delivered: 0 },
            },
        )
    }

    /// A snapshot copy of every known peer.
    pub fn get_peers(&self) -> (r: Vec<Peer>)
        ensures
            Seq::new(r@.len(), |i: int| r@[i]@) == self.spec_registry(),
    {
        self.registry.list()
    }

    /// The aggregate counters.
    pub fn get_stats(&self) -> (r: Stats)
        ensures
            r == self.spec_stats(),
    {
        self.stats
    }

    /// This node's own advertisement, stamped at `now`.
    pub fn get_local_info(&self, now: u64) -> (r: NodeInfo)
        ensures
            r@.node_id == self.spec_node_id(),
            r@.node_name == self.spec_node_name(),
            r@.public_key == self.spec_public_key(),
            r@.address == self.spec_local_addr(),
            r@.virtual_ip == Seq::<char>::empty(),
            r@.subnet == Seq::<char>::empty(),
            r@.online == true,
            r@.last_seen == now,
            r@.capabilities == 0,
    {
        let r = NodeInfo {
            node_id: self.node_id.clone(),
            node_name: self.node_name.clone(),
            public_key: clone_bytes(&self.public_key),
            address: self.local_addr.clone_addr(),
            virtual_ip: String::new(),
            subnet: String::new(),
            online: true,
            last_seen: now,
            capabilities: 0,
        };
        proof {
            assert(r.virtual_ip@ =~= Seq::<char>::empty());
            assert(r.subnet@ =~= Seq::<char>::empty());
        }
        r
    }

    /// Evicts every peer silent for longer than `timeout` and returns the
    /// evicted ids.
    pub fn sweep_peers(&mut self, now: u64, timeout: u64) -> (removed: Vec<String>)
        requires
            old(self).wf(),
        ensures
            final(self).wf(),
            final(self).same_identity(old(self)),
            final(self).spec_registry() == old(self).spec_registry().filter(
                |p: PeerV| !crate::registry::spec_expired(p, now, timeout),
            ),
            final(self).spec_session() == old(self).spec_session(),
            final(self).spec_initiator() == old(self).spec_initiator(),
            final(self).spec_stats() == old(self).spec_stats(),
            Seq::new(removed@.len(), |i: int| removed@[i]@) == crate::registry::spec_ids_of(
                old(self).spec_registry().filter(
                    |p: PeerV| crate::registry::spec_expired(p, now, timeout),
                ),
            ),
    {
        self.registry.sweep(now, timeout)
    }

    /// Serializes `packet` for the peer named `peer_id`: the destination
    /// address and the datagram to put on the wire. Fails with
    /// `PeerNotFound` exactly when the id is unknown.
    pub fn send_packet(&self, peer_id: &String, packet: &Packet) -> (r: Result<
        (TransportAddr, Vec<u8>),
        SendError,
    >)
        ensures
            match r {
                Ok(p) => {
                    &&& spec_find_peer(self.spec_registry(), peer_id@) matches Some(i)
                        && self.spec_registry()[i].address == p.0@
                    &&& p.1@ == spec_encode_packet(packet@)
                },
                Err(e) => spec_find_peer(self.spec_registry(), peer_id@) is None && e
                    == SendError::PeerNotFound,
            },
    {
        match self.registry.get(peer_id) {
            Some(peer) => Ok((peer.address, packet.encode())),
            None => Err(SendError::PeerNotFound),
        }
    }

    /// The node-discovery probe: a well-formed empty-payload packet.
    pub fn discovery_packet(&self) -> (r: Vec<u8>)
        ensures
            r@ == spec_encode_packet(
                PacketV {
                    magic: MAGIC,
                    version: PROTOCOL_VERSION,
                    msg_type: MessageType::NodeDiscovery,
                    flags: 0u8,
                    length: 0u16,
                    checksum: crate::codec::spec_checksum(Seq::<u8>::empty()),
                    data: Seq::<u8>::empty(),
                },
            ),
    {
        let packet = match Packet::new(MessageType::NodeDiscovery, 0, Vec::new()) {
            Ok(p) => p,
            Err(_) => {
                proof {
                    assert(false);
                }
                vstd::pervasive::unreached()
            },
        };
        packet.encode()
    }

    /// One heartbeat datagram per known peer, all carrying this node's id
    /// stamped at `now`. The registry is read, never written. Fails
    /// exactly when the heartbeat cannot fit a packet, which only an
    /// oversized node id causes.
    pub fn heartbeat_packets(&self, now: u64, load: u32, uptime: u64) -> (r: Result<
        Vec<(TransportAddr, Vec<u8>)>,
        EncodeError,
    >)
        ensures
            ({
                let hb = HeartbeatV {
                    node_id: self.spec_node_id(),
                    timestamp: now,
                    load: load,
                    uptime: uptime,
                };
                match r {
                    Ok(v) => {
                        &&& hb.encodable()
                        &&& spec_encode_heartbeat(hb).len() <= MAX_MESSAGE_LENGTH
                        &&& v@.len() == self.spec_registry().len()
                        &&& (forall|i: int|
                            0 <= i < v@.len() ==> (#[trigger] v@[i]).0@ == self.spec_registry()[i].address
                                && v@[i].1@ == spec_encode_packet(
                                PacketV {
                                    magic: MAGIC,
                                    version: PROTOCOL_VERSION,
                                    msg_type: MessageType::Heartbeat,
                                    flags: 0u8,
                                    length: spec_encode_heartbeat(hb).len() as u16,
                                    checksum: crate::codec::spec_checksum(spec_encode_heartbeat(hb)),
                                    data: spec_encode_heartbeat(hb),
                                },
                            ))
                    },
                    Err(e) => (!hb.encodable() || spec_encode_heartbeat(hb).len()
                        > MAX_MESSAGE_LENGTH) && e == EncodeError::TooLong,
                }
            }),
    {
        let hb = Heartbeat {
            node_id: self.node_id.clone(),
            timestamp: now,
            load,
            uptime,
        };
        let payload = match encode_heartbeat(&hb) {
            Ok(v) => v,
            Err(e) => {
                return Err(e);
            },
        };
        let packet = match Packet::new(MessageType::Heartbeat, 0, payload) {
            Ok(p) => p,
            Err(e) => {
                return Err(e);
            },
        };
        let bytes = packet.encode();
        let peers = self.registry.list();
        let mut out: Vec<(TransportAddr, Vec<u8>)> = Vec::new();
        let mut i: usize = 0;
        while i < peers.len()
            invariant
                i <= peers@.len(),
                out@.len() == i,
                forall|j: int|
                    0 <= j < i ==> (#[trigger] out@[j]).0@ == peers@[j]@.address && out@[j].1@
                        == bytes@,
            decreases peers@.len() - i,
        {
            out.push((peers[i].address.clone_addr(), clone_bytes(&bytes)));
            i = i + 1;
        }
        Ok(out)
    }
}


/// The typed reason a packet that failed to decode is dropped.
pub open spec fn spec_drop_of_decode(e: DecodeError) -> DropReason {
    match e {
        DecodeError::MalformedHeader => DropReason::Malformed,
        DecodeError::MagicMismatch => DropReason::MagicMismatch,
        DecodeError::UnknownMessageType => DropReason::UnknownType,
        DecodeError::LengthMismatch => DropReason::LengthMismatch,
        DecodeError::ChecksumMismatch => DropReason::BadChecksum,
        DecodeError::PayloadInvalid => DropReason::PayloadInvalid,
    }
}

/// Neither the registry, the session, the in-flight handshake nor the
/// data-plane context moved.
pub open spec fn spec_state_unchanged(pre: NetworkManager, post: NetworkManager) -> bool {
    &&& post.spec_registry() == pre.spec_registry()
    &&& post.spec_session() == pre.spec_session()
    &&& post.spec_initiator() == pre.spec_initiator()
    &&& post.spec_base_crypto() == pre.spec_base_crypto()
}

/// The peer record a node-info advertisement yields: addressed at its
/// transport source, marked online now.
pub open spec fn spec_peer_of_node_info(
    ni: crate::protocol::NodeInfoV,
    from: crate::protocol::TransportAddrV,
    now: u64,
) -> PeerV {
    PeerV {
        node_id: ni.node_id,
        node_name: ni.node_name,
        address: from,
        virtual_ip: ni.virtual_ip,
        public_key: ni.public_key,
        status: NodeStatus::Online,
        last_seen: now,
        capabilities: ni.capabilities,
    }
}

/// The peer record a handshake request yields on the responder.
pub open spec fn spec_peer_of_request(
    req: crate::protocol::HandshakeRequestV,
    from: crate::protocol::TransportAddrV,
    now: u64,
) -> PeerV {
    PeerV {
        node_id: req.node_id,
        node_name: req.node_name,
        address: from,
        virtual_ip: Seq::empty(),
        public_key: req.public_key,
        status: NodeStatus::Online,
        last_seen: now,
        capabilities: req.capabilities,
    }
}

/// The peer record an accepted handshake response yields on the
/// initiator.
pub open spec fn spec_peer_of_response(
    resp: HandshakeResponseV,
    from: crate::protocol::TransportAddrV,
    now: u64,
) -> PeerV {
    PeerV {
        node_id: resp.node_id,
        node_name: resp.node_name,
        address: from,
        virtual_ip: Seq::empty(),
        public_key: resp.public_key,
        status: NodeStatus::Online,
        last_seen: now,
        capabilities: 0u32,
    }
}

/// A full packet around `payload`, as every builder here frames one.
pub open spec fn spec_framed(t: MessageType, payload: Seq<u8>) -> Seq<u8> {
    spec_encode_packet(
        PacketV {
            magic: MAGIC,
            version: PROTOCOL_VERSION,
            msg_type: t,
            flags: 0u8,
            length: payload.len() as u16,
            checksum: crate::codec::spec_checksum(payload),
            data: payload,
        },
    )
}

impl NetworkManager {
    /// Processes one inbound datagram: decode, checksum verification,
    /// then routing by message type. Every rejection drops exactly that
    /// packet and mutates nothing (the one exception: a handshake
    /// response that abandons the in-flight attempt); in particular a
    /// packet whose message-type tag lies outside the declared range is
    /// dropped with no peer-state change at all. Bytes are delivered to
    /// the tunnel device only when the frame is the seal of exactly
    /// those bytes under the active key and its carried nonce.
    pub fn handle_datagram(&mut self, data: &Vec<u8>, from: TransportAddr, now: u64) -> (r:
        DispatchOutcome)
        requires
            old(self).wf(),
        ensures
            final(self).wf(),
            final(self).same_identity(old(self)),
            final(self).spec_stats() == (Stats {
                packets_received: spec_bump(old(self).spec_stats().packets_received),
                packets_dropped: if r is Dropped {
                    spec_bump(old(self).spec_stats().packets_dropped)
                } else {
                    old(self).spec_stats().packets_dropped
                },
                frames_delivered: if r is Deliver {
                    spec_bump(old(self).spec_stats().frames_delivered)
                } else {
                    old(self).spec_stats().frames_delivered
                },
            }),
            match spec_decode_packet(data@) {
                Err(e) => r == DispatchOutcome::Dropped(spec_drop_of_decode(e))
                    && spec_state_unchanged(*old(self), *final(self)),
                Ok(p) => if !spec_verify_checksum(p.data, p.checksum) {
                    r == DispatchOutcome::Dropped(DropReason::BadChecksum) && spec_state_unchanged(
                        *old(self),
                        *final(self),
                    )
                } else {
                    match p.msg_type {
                        MessageType::Heartbeat => match spec_decode_heartbeat(p.data) {
                            None => r == DispatchOutcome::Dropped(DropReason::PayloadInvalid)
                                && spec_state_unchanged(*old(self), *final(self)),
                            Some(hb) => {
                                &&& r is Handled
                                &&& final(self).spec_registry() == crate::registry::spec_touched(
                                    old(self).spec_registry(),
                                    hb.node_id,
                                    now,
                                )
                                &&& final(self).spec_session() == old(self).spec_session()
                                &&& final(self).spec_initiator() == old(self).spec_initiator()
                                &&& final(self).spec_base_crypto() == old(self).spec_base_crypto()
                            },
                        },
                        MessageType::NodeInfo => match spec_decode_node_info(p.data) {
                            None => r == DispatchOutcome::Dropped(DropReason::PayloadInvalid)
                                && spec_state_unchanged(*old(self), *final(self)),
                            Some(ni) => {
                                &&& r is Handled
                                &&& final(self).spec_registry() == spec_upserted(
                                    old(self).spec_registry(),
                                    spec_peer_of_node_info(ni, from@, now),
                                )
                                &&& final(self).spec_session() == old(self).spec_session()
                                &&& final(self).spec_initiator() == old(self).spec_initiator()
                                &&& final(self).spec_base_crypto() == old(self).spec_base_crypto()
                            },
                        },
                        MessageType::NodeDiscovery => {
                            &&& spec_state_unchanged(*old(self), *final(self))
                            &&& ({
                                let ni = crate::protocol::NodeInfoV {
                                    node_id: old(self).spec_node_id(),
                                    node_name: old(self).spec_node_name(),
                                    public_key: old(self).spec_public_key(),
                                    address: old(self).spec_local_addr(),
                                    virtual_ip: Seq::empty(),
                                    subnet: Seq::empty(),
                                    online: true,
                                    last_seen: now,
                                    capabilities: 0u32,
                                };
                                if ni.encodable() && spec_encode_node_info(ni).len()
                                    <= MAX_MESSAGE_LENGTH {
                                    r matches DispatchOutcome::Reply(b) && b@ == spec_framed(
                                        MessageType::NodeInfo,
                                        spec_encode_node_info(ni),
                                    )
                                } else {
                                    r == DispatchOutcome::Dropped(DropReason::ReplyFailed)
                                }
                            })
                        },
                        MessageType::DataForward => match spec_decode_data_forward(p.data) {
                            None => r == DispatchOutcome::Dropped(DropReason::PayloadInvalid)
                                && spec_state_unchanged(*old(self), *final(self)),
                            Some(df) => {
                                &&& spec_state_unchanged(*old(self), *final(self))
                                &&& (r is Deliver || r == DispatchOutcome::Dropped(
                                    DropReason::CryptoFailed,
                                ))
                                &&& (r matches DispatchOutcome::Deliver(b) ==> b@.len() + 24
                                    == df.data.len())
                                &&& (r matches DispatchOutcome::Deliver(b) ==> df.data.skip(8)
                                    == spec_aead_sealed(
                                    old(self).spec_active_key(),
                                    spec_nonce12(spec_u64_from_be(df.data.take(8))),
                                    Seq::<u8>::empty(),
                                    b@,
                                ))
                                &&& (forall|pt: Seq<u8>|
                                    (df.data.len() >= 24 && df.data.skip(8) == spec_aead_sealed(
                                        old(self).spec_active_key(),
                                        spec_nonce12(spec_u64_from_be(df.data.take(8))),
                                        Seq::<u8>::empty(),
                                        pt,
                                    )) ==> (r matches DispatchOutcome::Deliver(b) && b@ == pt))
                            },
                        },
                        MessageType::HandshakeRequest => match spec_decode_handshake_request(
                            p.data,
                        ) {
                            None => r == DispatchOutcome::Dropped(DropReason::PayloadInvalid)
                                && spec_state_unchanged(*old(self), *final(self)),
                            Some(req) => if req.version != PROTOCOL_VERSION {
                                r == DispatchOutcome::Dropped(DropReason::Unexpected)
                                    && spec_state_unchanged(*old(self), *final(self))
                            } else {
                                ||| (r matches DispatchOutcome::Dropped(d) && (d
                                    == DropReason::CryptoFailed || d == DropReason::ReplyFailed)
                                    && spec_state_unchanged(*old(self), *final(self)))
                                ||| {
                                    &&& final(self).spec_registry() == spec_upserted(
                                        old(self).spec_registry(),
                                        spec_peer_of_request(req, from@, now),
                                    )
                                    &&& final(self).spec_session() matches Some(c) && c.wf()
                                        && c.spec_key().len() == 32 && c.spec_nonce_counter() == 0
                                    &&& final(self).spec_initiator() == old(self).spec_initiator()
                                    &&& final(self).spec_base_crypto() == old(
                                        self,
                                    ).spec_base_crypto()
                                    &&& (r matches DispatchOutcome::Reply(b) && (exists|
                                        resp: HandshakeResponseV,
                                    |
                                        {
                                            &&& resp.version == PROTOCOL_VERSION
                                            &&& resp.node_id == old(self).spec_node_id()
                                            &&& resp.node_name == old(self).spec_node_name()
                                            &&& resp.status == 0
                                            &&& resp.session_key == Seq::<u8>::empty()
                                            &&& b@ == spec_framed(
                                                MessageType::HandshakeResponse,
                                                #[trigger] spec_encode_handshake_response(resp),
                                            )
                                        }))
                                }
                            },
                        },
                        MessageType::HandshakeResponse => match spec_decode_handshake_response(
                            p.data,
                        ) {
                            None => r == DispatchOutcome::Dropped(DropReason::PayloadInvalid)
                                && spec_state_unchanged(*old(self), *final(self)),
                            Some(resp) => {
                                &&& final(self).spec_base_crypto() == old(self).spec_base_crypto()
                                &&& (!(old(self).spec_initiator() is AwaitingResponse) ==> r
                                    == DispatchOutcome::Dropped(DropReason::Unexpected)
                                    && spec_state_unchanged(*old(self), *final(self)))
                                &&& (old(self).spec_initiator() is AwaitingResponse && resp.status
                                    != 0 ==> r is Handled && final(self).spec_initiator()
                                    == InitiatorPhase::Failed && final(self).spec_registry() == old(
                                    self,
                                ).spec_registry() && final(self).spec_session() == old(
                                    self,
                                ).spec_session())
                                &&& (old(self).spec_initiator() is AwaitingResponse && resp.status
                                    == 0 ==> {
                                    ||| {
                                        &&& r is Handled
                                        &&& final(self).spec_initiator() matches
                                            InitiatorPhase::Established { session_key }
                                            && session_key.len() == 32
                                        &&& final(self).spec_session() matches Some(c) && c.wf()
                                            && c.spec_nonce_counter() == 0
                                        &&& final(self).spec_registry() == spec_upserted(
                                            old(self).spec_registry(),
                                            spec_peer_of_response(resp, from@, now),
                                        )
                                    }
                                    ||| {
                                        &&& r == DispatchOutcome::Dropped(DropReason::CryptoFailed)
                                        &&& final(self).spec_initiator() == InitiatorPhase::Failed
                                        &&& final(self).spec_registry() == old(
                                            self,
                                        ).spec_registry()
                                        &&& final(self).spec_session() == old(self).spec_session()
                                    }
                                })
                            },
                        },
                        _ => r == DispatchOutcome::Dropped(DropReason::Unhandled)
                            && spec_state_unchanged(*old(self), *final(self)),
                    }
                },
            },
    {
        self.stats.packets_received = bump(self.stats.packets_received);
        let outcome: DispatchOutcome = match Packet::decode(data) {
            Err(e) => {
                let reason = match e {
                    DecodeError::MalformedHeader => DropReason::Malformed,
                    DecodeError::MagicMismatch => DropReason::MagicMismatch,
                    DecodeError::UnknownMessageType => DropReason::UnknownType,
                    DecodeError::LengthMismatch => DropReason::LengthMismatch,
                    DecodeError::ChecksumMismatch => DropReason::BadChecksum,
                    DecodeError::PayloadInvalid => DropReason::PayloadInvalid,
                };
                DispatchOutcome::Dropped(reason)
            },
            Ok(packet) => {
                if !verify_checksum(&packet.data, packet.checksum) {
                    DispatchOutcome::Dropped(DropReason::BadChecksum)
                } else {
                    match packet.msg_type {
                        MessageType::Heartbeat => match decode_heartbeat(&packet.data) {
                            Err(_) => DispatchOutcome::Dropped(DropReason::PayloadInvalid),
                            Ok(hb) => {
                                self.registry.touch(&hb.node_id, now);
                                DispatchOutcome::Handled
                            },
                        },
                        MessageType::NodeInfo => match decode_node_info(&packet.data) {
                            Err(_) => DispatchOutcome::Dropped(DropReason::PayloadInvalid),
                            Ok(ni) => {
                                let peer = Peer {
                                    node_id: ni.node_id,
                                    node_name: ni.node_name,
                                    address: from,
                                    virtual_ip: ni.virtual_ip,
                                    public_key: ni.public_key,
                                    status: NodeStatus::Online,
                                    last_seen: now,
                                    capabilities: ni.capabilities,
                                };
                                self.registry.upsert(peer);
                                DispatchOutcome::Handled
                            },
                        },
                        MessageType::NodeDiscovery => {
                            let info = self.get_local_info(now);
                            match encode_node_info(&info) {
                                Err(_) => DispatchOutcome::Dropped(DropReason::ReplyFailed),
                                Ok(payload) => match Packet::new(MessageType::NodeInfo, 0, payload) {
                                    Err(_) => DispatchOutcome::Dropped(DropReason::ReplyFailed),
                                    Ok(reply) => DispatchOutcome::Reply(reply.encode()),
                                },
                            }
                        },
                        MessageType::DataForward => match decode_data_forward(&packet.data) {
                            Err(_) => DispatchOutcome::Dropped(DropReason::PayloadInvalid),
                            Ok(df) => {
                                let aad: Vec<u8> = Vec::new();
                                let opened = match &self.session {
                                    Some(c) => c.decrypt(&df.data, &aad),
                                    None => self.crypto.decrypt(&df.data, &aad),
                                };
                                proof {
                                    assert(aad@ =~= Seq::<u8>::empty());
                                }
                                match opened {
                                    Ok(frame) => DispatchOutcome::Deliver(frame),
                                    Err(_) => DispatchOutcome::Dropped(DropReason::CryptoFailed),
                                }
                            },
                        },
                        MessageType::HandshakeRequest => match decode_handshake_request(
                            &packet.data,
                        ) {
                            Err(_) => DispatchOutcome::Dropped(DropReason::PayloadInvalid),
                            Ok(req) => match respond(&req, &self.node_id, &self.node_name, from, now) {
                                Err(HandshakeError::VersionMismatch) => DispatchOutcome::Dropped(
                                    DropReason::Unexpected,
                                ),
                                Err(_) => DispatchOutcome::Dropped(DropReason::CryptoFailed),
                                Ok((resp, peer, session_key)) => match encode_handshake_response(
                                    &resp,
                                ) {
                                    Err(_) => DispatchOutcome::Dropped(DropReason::ReplyFailed),
                                    Ok(payload) => match Packet::new(
                                        MessageType::HandshakeResponse,
                                        0,
                                        payload,
                                    ) {
                                        Err(_) => DispatchOutcome::Dropped(DropReason::ReplyFailed),
                                        Ok(reply) => {
                                            let ctx = match CryptoContext::new(
                                                &session_key,
                                                CryptoAlgorithm::AesGcm256,
                                            ) {
                                                Ok(c) => c,
                                                Err(_) => {
                                                    proof {
                                                        assert(false);
                                                    }
                                                    vstd::pervasive::unreached()
                                                },
                                            };
                                            let bytes = reply.encode();
                                            self.session = Some(ctx);
                                            self.registry.upsert(peer);
                                            DispatchOutcome::Reply(bytes)
                                        },
                                    },
                                },
                            },
                        },
                        MessageType::HandshakeResponse => match decode_handshake_response(
                            &packet.data,
                        ) {
                            Err(_) => DispatchOutcome::Dropped(DropReason::PayloadInvalid),
                            Ok(resp) => {
                                let mut st = InitiatorState::Idle;
                                core::mem::swap(&mut st, &mut self.initiator);
                                let was_awaiting = match &st {
                                    InitiatorState::AwaitingResponse { .. } => true,
                                    _ => false,
                                };
                                let (next, peer) = on_response(st, &resp, from, now);
                                self.initiator = next;
                                match peer {
                                    Some(p) => {
                                        let key = match &self.initiator {
                                            InitiatorState::Established { session_key } => (
                                            clone_bytes(session_key)),
                                            _ => {
                                                proof {
                                                    assert(false);
                                                }
                                                vstd::pervasive::unreached()
                                            },
                                        };
                                        let ctx = match CryptoContext::new(
                                            &key,
                                            CryptoAlgorithm::AesGcm256,
                                        ) {
                                            Ok(c) => c,
                                            Err(_) => {
                                                proof {
                                                    assert(false);
                                                }
                                                vstd::pervasive::unreached()
                                            },
                                        };
                                        self.session = Some(ctx);
                                        self.registry.upsert(p);
                                        DispatchOutcome::Handled
                                    },
                                    None => {
                                        if !was_awaiting {
                                            DispatchOutcome::Dropped(DropReason::Unexpected)
                                        } else if resp.status != 0 {
                                            DispatchOutcome::Handled
                                        } else {
                                            DispatchOutcome::Dropped(DropReason::CryptoFailed)
                                        }
                                    },
                                }
                            },
                        },
                        _ => DispatchOutcome::Dropped(DropReason::Unhandled),
                    }
                }
            },
        };
        if let DispatchOutcome::Dropped(_) = &outcome {
            self.stats.packets_dropped = bump(self.stats.packets_dropped);
        }
        if let DispatchOutcome::Deliver(_) = &outcome {
            self.stats.frames_delivered = bump(self.stats.frames_delivered);
        }
        outcome
    }
}


impl NetworkManager {
    /// Whether this node's identity fits a handshake request: each name
    /// within its length prefix, and the whole request (46 bytes of
    /// fixed fields and prefixes around the two names) within the
    /// control-message ceiling.
    pub open spec fn spec_request_fits(&self) -> bool {
        &&& encode_utf8(self.spec_node_id()).len() <= 0xFFFF
        &&& encode_utf8(self.spec_node_name()).len() <= 0xFFFF
        &&& 46 + encode_utf8(self.spec_node_id()).len() + encode_utf8(
            self.spec_node_name(),
        ).len() <= MAX_MESSAGE_LENGTH
    }

    /// Opens a handshake toward a peer: draws the ephemeral contribution,
    /// frames the request, and only then records the attempt as awaiting
    /// a response. Nothing changes when the request cannot be built; a
    /// fitting identity fails only if the random source does, and an
    /// oversized request is reported exactly when the identity does not
    /// fit.
    pub fn connect(&mut self, now: u64) -> (r: Result<Vec<u8>, HandshakeError>)
        requires
            old(self).wf(),
        ensures
            final(self).wf(),
            final(self).same_identity(old(self)),
            final(self).spec_registry() == old(self).spec_registry(),
            final(self).spec_session() == old(self).spec_session(),
            final(self).spec_base_crypto() == old(self).spec_base_crypto(),
            final(self).spec_stats() == old(self).spec_stats(),
            match r {
                Ok(b) => {
                    &&& final(self).spec_initiator() == (InitiatorPhase::AwaitingResponse {
                        retries: 0u32,
                        sent_at: now,
                    })
                    &&& (exists|req: crate::protocol::HandshakeRequestV|
                        {
                            &&& req.version == PROTOCOL_VERSION
                            &&& req.node_id == old(self).spec_node_id()
                            &&& req.node_name == old(self).spec_node_name()
                            &&& b@ == spec_framed(
                                MessageType::HandshakeRequest,
                                #[trigger] crate::messages::spec_encode_handshake_request(req),
                            )
                        })
                },
                Err(e) => final(self).spec_initiator() == old(self).spec_initiator() && (e
                    == HandshakeError::KeyGenFailed || e == HandshakeError::RequestTooLarge),
            },
            old(self).spec_request_fits() ==> (r is Ok || r == Err::<Vec<u8>, HandshakeError>(
                HandshakeError::KeyGenFailed,
            )),
            r == Err::<Vec<u8>, HandshakeError>(HandshakeError::RequestTooLarge) ==> !old(
                self,
            ).spec_request_fits(),
    {
        let (st, req) = match initiate(&self.node_id, &self.node_name, 0, now) {
            Ok(p) => p,
            Err(e) => {
                return Err(e);
            },
        };
        let payload = match crate::messages::encode_handshake_request(&req) {
            Ok(v) => v,
            Err(_) => {
                proof {
                    assert(!req@.encodable());
                }
                return Err(HandshakeError::RequestTooLarge);
            },
        };
        proof {
            assert(payload@.len() == 46 + encode_utf8(self.spec_node_id()).len() + encode_utf8(
                self.spec_node_name(),
            ).len());
        }
        let packet = match Packet::new(MessageType::HandshakeRequest, 0, payload) {
            Ok(p) => p,
            Err(_) => {
                return Err(HandshakeError::RequestTooLarge);
            },
        };
        let bytes = packet.encode();
        self.initiator = st;
        Ok(bytes)
    }

    /// Advances the in-flight handshake past a response deadline; true
    /// asks the caller to resend its request.
    pub fn handshake_timeout(&mut self, now: u64) -> (resend: bool)
        requires
            old(self).wf(),
        ensures
            final(self).wf(),
            final(self).same_identity(old(self)),
            final(self).spec_registry() == old(self).spec_registry(),
            final(self).spec_session() == old(self).spec_session(),
            final(self).spec_base_crypto() == old(self).spec_base_crypto(),
            final(self).spec_stats() == old(self).spec_stats(),
            !(old(self).spec_initiator() is AwaitingResponse) ==> final(self).spec_initiator()
                == old(self).spec_initiator() && resend == false,
            old(self).spec_initiator() matches InitiatorPhase::AwaitingResponse { retries, .. }
                ==> {
                if retries < crate::protocol::MAX_RETRIES {
                    &&& final(self).spec_initiator() == (InitiatorPhase::AwaitingResponse {
                        retries: (retries + 1) as u32,
                        sent_at: now,
                    })
                    &&& resend == true
                } else {
                    &&& final(self).spec_initiator() == InitiatorPhase::Failed
                    &&& resend == false
                }
            },
    {
        let mut st = InitiatorState::Idle;
        core::mem::swap(&mut st, &mut self.initiator);
        let (next, resend) = on_timeout(st, crate::protocol::MAX_RETRIES, now);
        self.initiator = next;
        resend
    }

    /// The next send-nonce counter of the data path.
    pub open spec fn spec_active_counter(&self) -> u64 {
        match self.spec_session() {
            Some(c) => c.spec_nonce_counter(),
            None => self.spec_base_crypto().spec_nonce_counter(),
        }
    }

    /// Seals one application frame for `dest_node` and frames it as a
    /// data-forward packet: the destination address and the datagram to
    /// send. A datagram is owed whenever the peer is known, the nonce
    /// space is not spent, and the frame and both node ids fit their
    /// length prefixes and the control-message ceiling (31 bytes of
    /// prefixes and fixed fields, a 24-byte sealing overhead). The frame
    /// is sealed under the data path's next nonce; the counter only ever
    /// moves forward, so a frame that cannot be framed after sealing
    /// discards its nonce rather than ever reusing it. The nonce travels
    /// inside the ciphertext prefix, never assumed by the receiver.
    pub fn build_data_forward(&mut self, dest_node: &String, frame: &Vec<u8>, protocol: u8) -> (r:
        Result<(TransportAddr, Vec<u8>), SendError>)
        requires
            old(self).wf(),
        ensures
            final(self).wf(),
            final(self).same_identity(old(self)),
            final(self).spec_registry() == old(self).spec_registry(),
            final(self).spec_initiator() == old(self).spec_initiator(),
            final(self).spec_stats() == old(self).spec_stats(),
            final(self).spec_active_key() == old(self).spec_active_key(),
            spec_find_peer(old(self).spec_registry(), dest_node@) is None <==> (r
                == Err::<(TransportAddr, Vec<u8>), SendError>(SendError::PeerNotFound)),
            ({
                &&& spec_find_peer(old(self).spec_registry(), dest_node@) is Some
                &&& old(self).spec_active_counter() < u64::MAX
                &&& frame@.len() + 24 <= 0xFFFF
                &&& encode_utf8(old(self).spec_node_id()).len() <= 0xFFFF
                &&& encode_utf8(dest_node@).len() <= 0xFFFF
                &&& 31 + encode_utf8(old(self).spec_node_id()).len() + encode_utf8(
                    dest_node@,
                ).len() + frame@.len() <= MAX_MESSAGE_LENGTH
            }) ==> r is Ok,
            r matches Err(e) ==> e == SendError::PeerNotFound || e == SendError::EncodeFailed,
            final(self).spec_active_counter() >= old(self).spec_active_counter(),
            r matches Ok(p) ==> {
                &&& spec_find_peer(old(self).spec_registry(), dest_node@) matches Some(i) && old(
                    self,
                ).spec_registry()[i].address == p.0@
                &&& old(self).spec_active_counter() < u64::MAX
                &&& final(self).spec_active_counter() == old(self).spec_active_counter() + 1
                &&& ({
                    let sealed = crate::endian::spec_u64_to_be(old(self).spec_active_counter())
                        + spec_aead_sealed(
                        old(self).spec_active_key(),
                        spec_nonce12(old(self).spec_active_counter()),
                        Seq::<u8>::empty(),
                        frame@,
                    );
                    let df = crate::protocol::DataForwardV {
                        source_node: old(self).spec_node_id(),
                        dest_node: dest_node@,
                        data: sealed,
                        protocol: protocol,
                    };
                    df.encodable() && p.1@ == spec_framed(
                        MessageType::DataForward,
                        crate::messages::spec_encode_data_forward(df),
                    )
                })
            },
    {
        let peer = match self.registry.get(dest_node) {
            Some(p) => p,
            None => {
                return Err(SendError::PeerNotFound);
            },
        };
        let aad: Vec<u8> = Vec::new();
        proof {
            assert(aad@ =~= Seq::<u8>::empty());
        }
        let sealed = match &mut self.session {
            Some(c) => c.encrypt(frame, &aad),
            None => self.crypto.encrypt(frame, &aad),
        };
        let data = match sealed {
            Ok(v) => v,
            Err(_) => {
                return Err(SendError::EncodeFailed);
            },
        };
        let df = crate::protocol::DataForward {
            source_node: self.node_id.clone(),
            dest_node: dest_node.clone(),
            data,
            protocol,
        };
        let payload = match crate::messages::encode_data_forward(&df) {
            Ok(v) => v,
            Err(_) => {
                return Err(SendError::EncodeFailed);
            },
        };
        let packet = match Packet::new(MessageType::DataForward, 0, payload) {
            Ok(p) => p,
            Err(_) => {
                return Err(SendError::EncodeFailed);
            },
        };
        Ok((peer.address, packet.encode()))
    }
}

} // verus!
