//! Protocol data model: constants, message types, message payload shapes,
//! node status, and the wire packet record.

use vstd::prelude::*;

verus! {

/// Protocol magic constant ("VNET").
pub const MAGIC: u32 = 0x564E4554;

/// Running protocol version.
pub const PROTOCOL_VERSION: u8 = 1;

/// Ceiling on a control-message payload, in bytes.
pub const MAX_MESSAGE_LENGTH: u16 = 16384;

/// Interval between heartbeat emissions, in seconds.
pub const HEARTBEAT_INTERVAL: u64 = 30;

/// Liveness timeout after which a silent peer is evicted, in seconds.
pub const TIMEOUT: u64 = 120;

/// Bound on handshake retries before the attempt is abandoned.
pub const MAX_RETRIES: u32 = 3;

/// Default MTU for encapsulated frames.
pub const DEFAULT_MTU: u32 = 1420;

/// Default UDP port of the primary channel.
pub const DEFAULT_PORT: u16 = 51820;

/// Hard ceiling on an encapsulated data-forward frame, in bytes.
pub const MAX_PACKET_SIZE: usize = 1500;

/// Size of the fixed packet header on the wire, in bytes.
pub const HEADER_LEN: usize = 11;

/// The closed set of wire message types.
#[derive(Clone, Copy, Debug, PartialEq, Eq, Structural)]
pub enum MessageType {
    HandshakeRequest,
    HandshakeResponse,
    NodeDiscovery,
    NodeInfo,
    DataForward,
    Heartbeat,
    RouteUpdate,
    ConnectionClose,
    AuthRequest,
    AuthResponse,
}

/// The wire tag of each message type, in ascending declared order.
pub open spec fn spec_msg_type_tag(t: MessageType) -> u8 {
    match t {
        MessageType::HandshakeRequest => 1,
        MessageType::HandshakeResponse => 2,
        MessageType::NodeDiscovery => 3,
        MessageType::NodeInfo => 4,
        MessageType::DataForward => 5,
        MessageType::Heartbeat => 6,
        MessageType::RouteUpdate => 7,
        MessageType::ConnectionClose => 8,
        MessageType::AuthRequest => 9,
        MessageType::AuthResponse => 10,
    }
}

/// The message type a wire tag denotes, `None` outside the declared range.
pub open spec fn spec_msg_type_from_tag(b: u8) -> Option<MessageType> {
    if b == 1 {
        Some(MessageType::HandshakeRequest)
    } else if b == 2 {
        Some(MessageType::HandshakeResponse)
    } else if b == 3 {
        Some(MessageType::NodeDiscovery)
    } else if b == 4 {
        Some(MessageType::NodeInfo)
    } else if b == 5 {
        Some(MessageType::DataForward)
    } else if b == 6 {
        Some(MessageType::Heartbeat)
    } else if b == 7 {
        Some(MessageType::RouteUpdate)
    } else if b == 8 {
        Some(MessageType::ConnectionClose)
    } else if b == 9 {
        Some(MessageType::AuthRequest)
    } else if b == 10 {
        Some(MessageType::AuthResponse)
    } else {
        None
    }
}

pub proof fn lemma_msg_type_tag_round_trip()
    ensures
        forall|t: MessageType| spec_msg_type_from_tag(#[trigger] spec_msg_type_tag(t)) == Some(t),
        forall|b: u8|
            (#[trigger] spec_msg_type_from_tag(b)) matches Some(t) ==> spec_msg_type_tag(t) == b,
{
}

impl MessageType {
    /// The wire tag of this message type.
    pub fn tag(&self) -> (b: u8)
        ensures
            b == spec_msg_type_tag(*self),
    {
        match self {
            MessageType::HandshakeRequest => 1,
            MessageType::HandshakeResponse => 2,
            MessageType::NodeDiscovery => 3,
            MessageType::NodeInfo => 4,
            MessageType::DataForward => 5,
            MessageType::Heartbeat => 6,
            MessageType::RouteUpdate => 7,
            MessageType::ConnectionClose => 8,
            MessageType::AuthRequest => 9,
            MessageType::AuthResponse => 10,
        }
    }

    /// The message type a wire tag denotes, `None` outside the declared range.
    pub fn from_tag(b: u8) -> (r: Option<MessageType>)
        ensures
            r == spec_msg_type_from_tag(b),
    {
        if b == 1 {
            Some(MessageType::HandshakeRequest)
        } else if b == 2 {
            Some(MessageType::HandshakeResponse)
        } else if b == 3 {
            Some(MessageType::NodeDiscovery)
        } else if b == 4 {
            Some(MessageType::NodeInfo)
        } else if b == 5 {
            Some(MessageType::DataForward)
        } else if b == 6 {
            Some(MessageType::Heartbeat)
        } else if b == 7 {
            Some(MessageType::RouteUpdate)
        } else if b == 8 {
            Some(MessageType::ConnectionClose)
        } else if b == 9 {
            Some(MessageType::AuthRequest)
        } else if b == 10 {
            Some(MessageType::AuthResponse)
        } else {
            None
        }
    }
}

/// Liveness and authorization status of a peer.
#[derive(Clone, Copy, Debug, PartialEq, Eq, Structural)]
pub enum NodeStatus {
    Offline,
    Online,
    Connecting,
    Authorized,
    Unauthorized,
    Error,
}

/// NAT classification of a peer's transport path; data only, the traversal
/// algorithm is out of scope.
#[derive(Clone, Copy, Debug, PartialEq, Eq, Structural)]
pub enum NatType {
    FullCone,
    RestrictedCone,
    PortRestrictedCone,
    Symmetric,
    Unknown,
}

/// A transport address as the core models it: raw IP octets (4 for IPv4,
/// 16 for IPv6) and a port.
#[derive(Debug)]
pub struct TransportAddr {
    pub ip: Vec<u8>,
    pub port: u16,
}

pub ghost struct TransportAddrV {
    pub ip: Seq<u8>,
    pub port: u16,
}

impl View for TransportAddr {
    type V = TransportAddrV;

    open spec fn view(&self) -> TransportAddrV {
        TransportAddrV { ip: self.ip@, port: self.port }
    }
}

impl TransportAddr {
    /// The IP octet count must identify the family.
    pub open spec fn wf(&self) -> bool {
        self.ip@.len() == 4 || self.ip@.len() == 16
    }

    pub fn clone_addr(&self) -> (r: TransportAddr)
        ensures
            r@ == self@,
    {
        TransportAddr { ip: clone_bytes(&self.ip), port: self.port }
    }
}

/// Byte-for-byte copy of a byte vector.
pub fn clone_bytes(v: &Vec<u8>) -> (r: Vec<u8>)
    ensures
        r@ == v@,
{
    let mut out: Vec<u8> = Vec::new();
    let mut i: usize = 0;
    while i < v.len()
        invariant
            i <= v@.len(),
            out@ == v@.subrange(0, i as int),
        decreases v@.len() - i,
    {
        out.push(v[i]);
        i = i + 1;
        assert(out@ =~= v@.subrange(0, i as int));
    }
    assert(out@ =~= v@);
    out
}

/// First message of the handshake: the initiator's identity and its
/// ephemeral key-exchange contribution.
#[derive(Debug)]
pub struct HandshakeRequest {
    pub version: u8,
    pub public_key: Vec<u8>,
    pub node_id: String,
    pub node_name: String,
    pub supported_protocols: Vec<u8>,
    pub capabilities: u32,
}

pub ghost struct HandshakeRequestV {
    pub version: u8,
    pub public_key: Seq<u8>,
    pub node_id: Seq<char>,
    pub node_name: Seq<char>,
    pub supported_protocols: Seq<u8>,
    pub capabilities: u32,
}

impl View for HandshakeRequest {
    type V = HandshakeRequestV;

    open spec fn view(&self) -> HandshakeRequestV {
        HandshakeRequestV {
            version: self.version,
            public_key: self.public_key@,
            node_id: self.node_id@,
            node_name: self.node_name@,
            supported_protocols: self.supported_protocols@,
            capabilities: self.capabilities,
        }
    }
}

/// Second message of the handshake: the responder's identity and its own
/// ephemeral key-exchange contribution. The session key itself is never
/// carried on the wire; each side derives it locally, so `session_key`
/// stays empty in transit.
#[derive(Debug)]
pub struct HandshakeResponse {
    pub version: u8,
    pub public_key: Vec<u8>,
    pub node_id: String,
    pub node_name: String,
    pub status: u8,
    pub message: String,
    pub session_key: Vec<u8>,
}

pub ghost struct HandshakeResponseV {
    pub version: u8,
    pub public_key: Seq<u8>,
    pub node_id: Seq<char>,
    pub node_name: Seq<char>,
    pub status: u8,
    pub message: Seq<char>,
    pub session_key: Seq<u8>,
}

impl View for HandshakeResponse {
    type V = HandshakeResponseV;

    open spec fn view(&self) -> HandshakeResponseV {
        HandshakeResponseV {
            version: self.version,
            public_key: self.public_key@,
            node_id: self.node_id@,
            node_name: self.node_name@,
            status: self.status,
            message: self.message@,
            session_key: self.session_key@,
        }
    }
}

/// Advertised identity and reachability of a node.
#[derive(Debug)]
pub struct NodeInfo {
    pub node_id: String,
    pub node_name: String,
    pub public_key: Vec<u8>,
    pub address: TransportAddr,
    pub virtual_ip: String,
    pub subnet: String,
    pub online: bool,
    pub last_seen: u64,
    pub capabilities: u32,
}

pub ghost struct NodeInfoV {
    pub node_id: Seq<char>,
    pub node_name: Seq<char>,
    pub public_key: Seq<u8>,
    pub address: TransportAddrV,
    pub virtual_ip: Seq<char>,
    pub subnet: Seq<char>,
    pub online: bool,
    pub last_seen: u64,
    pub capabilities: u32,
}

impl View for NodeInfo {
    type V = NodeInfoV;

    open spec fn view(&self) -> NodeInfoV {
        NodeInfoV {
            node_id: self.node_id@,
            node_name: self.node_name@,
            public_key: self.public_key@,
            address: self.address@,
            virtual_ip: self.virtual_ip@,
            subnet: self.subnet@,
            online: self.online,
            last_seen: self.last_seen,
            capabilities: self.capabilities,
        }
    }
}

/// An encrypted frame relayed between two nodes. `protocol` discriminates
/// the encapsulated family (IPv4 vs IPv6).
#[derive(Debug)]
pub struct DataForward {
    pub source_node: String,
    pub dest_node: String,
    pub data: Vec<u8>,
    pub protocol: u8,
}

pub ghost struct DataForwardV {
    pub source_node: Seq<char>,
    pub dest_node: Seq<char>,
    pub data: Seq<u8>,
    pub protocol: u8,
}

impl View for DataForward {
    type V = DataForwardV;

    open spec fn view(&self) -> DataForwardV {
        DataForwardV {
            source_node: self.source_node@,
            dest_node: self.dest_node@,
            data: self.data@,
            protocol: self.protocol,
        }
    }
}

/// A liveness beacon. `load` is the advertised load metric in hundredths
/// of a unit; purely informational.
#[derive(Debug)]
pub struct Heartbeat {
    pub node_id: String,
    pub timestamp: u64,
    pub load: u32,
    pub uptime: u64,
}

pub ghost struct HeartbeatV {
    pub node_id: Seq<char>,
    pub timestamp: u64,
    pub load: u32,
    pub uptime: u64,
}

impl View for Heartbeat {
    type V = HeartbeatV;

    open spec fn view(&self) -> HeartbeatV {
        HeartbeatV {
            node_id: self.node_id@,
            timestamp: self.timestamp,
            load: self.load,
            uptime: self.uptime,
        }
    }
}

/// One route advertisement: carried by the core, not processed by it.
#[derive(Debug)]
pub struct RouteEntry {
    pub network: String,
    pub mask: String,
    pub gateway: String,
    pub metric: u32,
}

pub ghost struct RouteEntryV {
    pub network: Seq<char>,
    pub mask: Seq<char>,
    pub gateway: Seq<char>,
    pub metric: u32,
}

impl View for RouteEntry {
    type V = RouteEntryV;

    open spec fn view(&self) -> RouteEntryV {
        RouteEntryV {
            network: self.network@,
            mask: self.mask@,
            gateway: self.gateway@,
            metric: self.metric,
        }
    }
}

/// A batch of route advertisements from one node.
#[derive(Debug)]
pub struct RouteUpdate {
    pub node_id: String,
    pub routes: Vec<RouteEntry>,
}

pub ghost struct RouteUpdateV {
    pub node_id: Seq<char>,
    pub routes: Seq<RouteEntryV>,
}

impl View for RouteUpdate {
    type V = RouteUpdateV;

    open spec fn view(&self) -> RouteUpdateV {
        RouteUpdateV {
            node_id: self.node_id@,
            routes: Seq::new(self.routes@.len(), |i: int| self.routes@[i]@),
        }
    }
}

/// A request for authorization, signed by the requester.
#[derive(Debug)]
pub struct AuthRequest {
    pub node_id: String,
    pub public_key: Vec<u8>,
    pub request_time: u64,
    pub signature: Vec<u8>,
}

pub ghost struct AuthRequestV {
    pub node_id: Seq<char>,
    pub public_key: Seq<u8>,
    pub request_time: u64,
    pub signature: Seq<u8>,
}

impl View for AuthRequest {
    type V = AuthRequestV;

    open spec fn view(&self) -> AuthRequestV {
        AuthRequestV {
            node_id: self.node_id@,
            public_key: self.public_key@,
            request_time: self.request_time,
            signature: self.signature@,
        }
    }
}

/// The verdict on an authorization request.
#[derive(Debug)]
pub struct AuthResponse {
    pub node_id: String,
    pub status: u8,
    pub message: String,
    pub token: Option<String>,
    pub expires_at: Option<u64>,
}

pub ghost struct AuthResponseV {
    pub node_id: Seq<char>,
    pub status: u8,
    pub message: Seq<char>,
    pub token: Option<Seq<char>>,
    pub expires_at: Option<u64>,
}

impl View for AuthResponse {
    type V = AuthResponseV;

    open spec fn view(&self) -> AuthResponseV {
        AuthResponseV {
            node_id: self.node_id@,
            status: self.status,
            message: self.message@,
            token: match self.token {
                Some(t) => Some(t@),
                None => None,
            },
            expires_at: self.expires_at,
        }
    }
}

/// The wire unit: fixed header fields plus an opaque payload.
#[derive(Debug)]
pub struct Packet {
    pub magic: u32,
    pub version: u8,
    pub msg_type: MessageType,
    pub flags: u8,
    pub length: u16,
    pub checksum: u16,
    pub data: Vec<u8>,
}

pub ghost struct PacketV {
    pub magic: u32,
    pub version: u8,
    pub msg_type: MessageType,
    pub flags: u8,
    pub length: u16,
    pub checksum: u16,
    pub data: Seq<u8>,
}

impl View for Packet {
    type V = PacketV;

    open spec fn view(&self) -> PacketV {
        PacketV {
            magic: self.magic,
            version: self.version,
            msg_type: self.msg_type,
            flags: self.flags,
            length: self.length,
            checksum: self.checksum,
            data: self.data@,
        }
    }
}

} // verus!
