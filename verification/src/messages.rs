//! Type-specific payload encodings: each message shape is laid out as
//! fixed-width big-endian integers and length-prefixed byte strings, and
//! parsed back by a cursor that accepts exactly the canonical encoding.

use vstd::prelude::*;
use vstd::string::StrSliceExecFns;
use vstd::utf8::{decode_utf8, encode_utf8, encode_utf8_decode_utf8, encode_utf8_valid_utf8,
    valid_utf8};
use crate::codec::{DecodeError, EncodeError};
use crate::protocol::{AuthRequest, AuthRequestV, AuthResponse, AuthResponseV, DataForward,
    DataForwardV, HandshakeRequest, HandshakeRequestV,
    HandshakeResponse, HandshakeResponseV, Heartbeat, HeartbeatV, NodeInfo, NodeInfoV, RouteEntry,
    RouteEntryV, RouteUpdate, RouteUpdateV, TransportAddr, TransportAddrV};
use crate::endian::{
    lemma_u16_be_round_trip, lemma_u32_be_round_trip, lemma_u64_be_round_trip, push_u16_be,
    push_u32_be, push_u64_be, read_u16_be, read_u32_be, read_u64_be, spec_u16_from_be,
    spec_u16_to_be, spec_u32_from_be, spec_u32_to_be, spec_u64_from_be, spec_u64_to_be,
};

verus! {

// ---------------------------------------------------------------------
// Field primitives
// ---------------------------------------------------------------------

/// A length-prefixed byte string: two big-endian length bytes, then the
/// bytes themselves.
pub open spec fn spec_enc_bytes(v: Seq<u8>) -> Seq<u8>
    recommends
        v.len() <= 0xFFFF,
{
    spec_u16_to_be(v.len() as u16) + v
}

/// A length-prefixed UTF-8 string.
pub open spec fn spec_enc_str(s: Seq<char>) -> Seq<u8>
    recommends
        encode_utf8(s).len() <= 0xFFFF,
{
    spec_enc_bytes(encode_utf8(s))
}

pub open spec fn spec_read_u8(b: Seq<u8>, i: int) -> Option<(u8, int)> {
    if 0 <= i && i + 1 <= b.len() {
        Some((b[i], i + 1))
    } else {
        None
    }
}

pub open spec fn spec_read_u16(b: Seq<u8>, i: int) -> Option<(u16, int)> {
    if 0 <= i && i + 2 <= b.len() {
        Some((spec_u16_from_be(b.subrange(i, i + 2)), i + 2))
    } else {
        None
    }
}

pub open spec fn spec_read_u32(b: Seq<u8>, i: int) -> Option<(u32, int)> {
    if 0 <= i && i + 4 <= b.len() {
        Some((spec_u32_from_be(b.subrange(i, i + 4)), i + 4))
    } else {
        None
    }
}

pub open spec fn spec_read_u64(b: Seq<u8>, i: int) -> Option<(u64, int)> {
    if 0 <= i && i + 8 <= b.len() {
        Some((spec_u64_from_be(b.subrange(i, i + 8)), i + 8))
    } else {
        None
    }
}

pub open spec fn spec_read_bytes(b: Seq<u8>, i: int) -> Option<(Seq<u8>, int)> {
    match spec_read_u16(b, i) {
        None => None,
        Some((len, j)) => if j + len <= b.len() {
            Some((b.subrange(j, j + len), j + len))
        } else {
            None
        },
    }
}

pub open spec fn spec_read_str(b: Seq<u8>, i: int) -> Option<(Seq<char>, int)> {
    match spec_read_bytes(b, i) {
        None => None,
        Some((v, j)) => if valid_utf8(v) {
            Some((decode_utf8(v), j))
        } else {
            None
        },
    }
}

/// Relies on `String::from_utf8`: it succeeds exactly on valid UTF-8 and
/// yields the characters those bytes encode.
#[verifier::external_body]
pub(crate) fn string_from_utf8(v: Vec<u8>) -> (r: Option<String>)
    ensures
        r is Some <==> valid_utf8(v@),
        r matches Some(s) ==> s@ == decode_utf8(v@),
{
    String::from_utf8(v).ok()
}

fn read_u8_at(b: &Vec<u8>, i: usize) -> (r: Option<(u8, usize)>)
    ensures
        match r {
            Some(p) => spec_read_u8(b@, i as int) == Some((p.0, p.1 as int)) && p.1 <= b@.len(),
            None => spec_read_u8(b@, i as int) is None,
        },
{
    if i < b.len() {
        Some((b[i], i + 1))
    } else {
        None
    }
}

fn read_u16_at(b: &Vec<u8>, i: usize) -> (r: Option<(u16, usize)>)
    ensures
        match r {
            Some(p) => spec_read_u16(b@, i as int) == Some((p.0, p.1 as int)) && p.1 <= b@.len(),
            None => spec_read_u16(b@, i as int) is None,
        },
{
    let n = b.len();
    if i < n && 2 <= n - i {
        Some((read_u16_be(b, i), i + 2))
    } else {
        None
    }
}

fn read_u32_at(b: &Vec<u8>, i: usize) -> (r: Option<(u32, usize)>)
    ensures
        match r {
            Some(p) => spec_read_u32(b@, i as int) == Some((p.0, p.1 as int)) && p.1 <= b@.len(),
            None => spec_read_u32(b@, i as int) is None,
        },
{
    let n = b.len();
    if i < n && 4 <= n - i {
        Some((read_u32_be(b, i), i + 4))
    } else {
        None
    }
}

fn read_u64_at(b: &Vec<u8>, i: usize) -> (r: Option<(u64, usize)>)
    ensures
        match r {
            Some(p) => spec_read_u64(b@, i as int) == Some((p.0, p.1 as int)) && p.1 <= b@.len(),
            None => spec_read_u64(b@, i as int) is None,
        },
{
    let n = b.len();
    if i < n && 8 <= n - i {
        Some((read_u64_be(b, i), i + 8))
    } else {
        None
    }
}

fn read_bytes_at(b: &Vec<u8>, i: usize) -> (r: Option<(Vec<u8>, usize)>)
    ensures
        match r {
            Some(p) => spec_read_bytes(b@, i as int) == Some((p.0@, p.1 as int)) && p.1
                <= b@.len(),
            None => spec_read_bytes(b@, i as int) is None,
        },
{
    match read_u16_at(b, i) {
        None => None,
        Some((len, j)) => {
            let n = b.len();
            if (len as usize) <= n - j {
                let v = crate::codec::copy_range(b, j, j + len as usize);
                Some((v, j + len as usize))
            } else {
                None
            }
        },
    }
}

fn read_str_at(b: &Vec<u8>, i: usize) -> (r: Option<(String, usize)>)
    ensures
        match r {
            Some(p) => spec_read_str(b@, i as int) == Some((p.0@, p.1 as int)) && p.1 <= b@.len(),
            None => spec_read_str(b@, i as int) is None,
        },
{
    match read_bytes_at(b, i) {
        None => None,
        Some((v, j)) => match string_from_utf8(v) {
            None => None,
            Some(s) => Some((s, j)),
        },
    }
}

/// Appends the length-prefixed encoding of `v`; refuses a byte string
/// wider than its length prefix allows.
fn push_bytes(out: &mut Vec<u8>, v: &Vec<u8>) -> (ok: bool)
    ensures
        ok <==> v@.len() <= 0xFFFF,
        ok ==> final(out)@ == old(out)@ + spec_enc_bytes(v@),
        !ok ==> final(out)@ == old(out)@,
{
    if v.len() > 0xFFFF {
        return false;
    }
    push_u16_be(out, v.len() as u16);
    let mut i: usize = 0;
    let ghost head = out@;
    while i < v.len()
        invariant
            i <= v@.len(),
            out@ == head + v@.subrange(0, i as int),
        decreases v@.len() - i,
    {
        out.push(v[i]);
        i = i + 1;
        assert(out@ =~= head + v@.subrange(0, i as int));
    }
    proof {
        assert(v@.subrange(0, v@.len() as int) =~= v@);
        assert(out@ =~= old(out)@ + spec_enc_bytes(v@));
    }
    true
}

/// Appends the length-prefixed UTF-8 encoding of `s`; refuses a string
/// whose encoding is wider than its length prefix allows.
fn push_str(out: &mut Vec<u8>, s: &String) -> (ok: bool)
    ensures
        ok <==> encode_utf8(s@).len() <= 0xFFFF,
        ok ==> final(out)@ == old(out)@ + spec_enc_str(s@),
        !ok ==> final(out)@ == old(out)@,
{
    let bytes = s.as_str().as_bytes_vec();
    push_bytes(out, &bytes)
}

// ---------------------------------------------------------------------
// Framing lemmas: reading a field back out of a concatenation
// ---------------------------------------------------------------------

proof fn lemma_read_u8_frame(pre: Seq<u8>, x: u8, rest: Seq<u8>)
    ensures
        spec_read_u8(pre + seq![x] + rest, pre.len() as int) == Some((x, pre.len() as int + 1)),
{
    let b = pre + seq![x] + rest;
    assert(b[pre.len() as int] == x);
}

proof fn lemma_read_u16_frame(pre: Seq<u8>, x: u16, rest: Seq<u8>)
    ensures
        spec_read_u16(pre + spec_u16_to_be(x) + rest, pre.len() as int) == Some(
            (x, pre.len() as int + 2),
        ),
{
    lemma_u16_be_round_trip();
    let b = pre + spec_u16_to_be(x) + rest;
    let i = pre.len() as int;
    assert(b.subrange(i, i + 2) =~= spec_u16_to_be(x));
}

proof fn lemma_read_u32_frame(pre: Seq<u8>, x: u32, rest: Seq<u8>)
    ensures
        spec_read_u32(pre + spec_u32_to_be(x) + rest, pre.len() as int) == Some(
            (x, pre.len() as int + 4),
        ),
{
    lemma_u32_be_round_trip();
    let b = pre + spec_u32_to_be(x) + rest;
    let i = pre.len() as int;
    assert(b.subrange(i, i + 4) =~= spec_u32_to_be(x));
}

proof fn lemma_read_u64_frame(pre: Seq<u8>, x: u64, rest: Seq<u8>)
    ensures
        spec_read_u64(pre + spec_u64_to_be(x) + rest, pre.len() as int) == Some(
            (x, pre.len() as int + 8),
        ),
{
    lemma_u64_be_round_trip();
    let b = pre + spec_u64_to_be(x) + rest;
    let i = pre.len() as int;
    assert(b.subrange(i, i + 8) =~= spec_u64_to_be(x));
}

proof fn lemma_read_bytes_frame(pre: Seq<u8>, v: Seq<u8>, rest: Seq<u8>)
    requires
        v.len() <= 0xFFFF,
    ensures
        spec_read_bytes(pre + spec_enc_bytes(v) + rest, pre.len() as int) == Some(
            (v, pre.len() as int + 2 + v.len()),
        ),
{
    lemma_u16_be_round_trip();
    let b = pre + spec_enc_bytes(v) + rest;
    let i = pre.len() as int;
    assert(b.subrange(i, i + 2) =~= spec_u16_to_be(v.len() as u16));
    assert(spec_read_u16(b, i) == Some((v.len() as u16, i + 2)));
    assert(b.subrange(i + 2, i + 2 + v.len()) =~= v);
}

proof fn lemma_read_str_frame(pre: Seq<u8>, s: Seq<char>, rest: Seq<u8>)
    requires
        encode_utf8(s).len() <= 0xFFFF,
    ensures
        spec_read_str(pre + spec_enc_str(s) + rest, pre.len() as int) == Some(
            (s, pre.len() as int + 2 + encode_utf8(s).len()),
        ),
{
    lemma_read_bytes_frame(pre, encode_utf8(s), rest);
    encode_utf8_valid_utf8(s);
    encode_utf8_decode_utf8(s);
}


// ---------------------------------------------------------------------
// Heartbeat
// ---------------------------------------------------------------------

impl HeartbeatV {
    /// Every field fits the width its wire encoding gives it.
    pub open spec fn encodable(self) -> bool {
        encode_utf8(self.node_id).len() <= 0xFFFF
    }
}

pub open spec fn spec_encode_heartbeat(v: HeartbeatV) -> Seq<u8> {
    spec_enc_str(v.node_id) + spec_u64_to_be(v.timestamp) + spec_u32_to_be(v.load)
        + spec_u64_to_be(v.uptime)
}

pub open spec fn spec_decode_heartbeat(b: Seq<u8>) -> Option<HeartbeatV> {
    match spec_read_str(b, 0) {
        None => None,
        Some((node_id, i1)) => match spec_read_u64(b, i1) {
            None => None,
            Some((timestamp, i2)) => match spec_read_u32(b, i2) {
                None => None,
                Some((load, i3)) => match spec_read_u64(b, i3) {
                    None => None,
                    Some((uptime, i4)) => if i4 == b.len() {
                        Some(HeartbeatV { node_id, timestamp, load, uptime })
                    } else {
                        None
                    },
                },
            },
        },
    }
}

/// Serializes a heartbeat; fails only when a field exceeds the width its
/// length prefix allows.
pub fn encode_heartbeat(m: &Heartbeat) -> (r: Result<Vec<u8>, EncodeError>)
    ensures
        m@.encodable() ==> (r matches Ok(v) && v@ == spec_encode_heartbeat(m@)),
        !m@.encodable() ==> r == Err::<Vec<u8>, EncodeError>(EncodeError::TooLong),
{
    let mut out: Vec<u8> = Vec::new();
    if !push_str(&mut out, &m.node_id) {
        return Err(EncodeError::TooLong);
    }
    push_u64_be(&mut out, m.timestamp);
    push_u32_be(&mut out, m.load);
    push_u64_be(&mut out, m.uptime);
    proof {
        assert(out@ =~= spec_encode_heartbeat(m@));
    }
    Ok(out)
}

/// Parses a heartbeat payload; accepts exactly the canonical encoding.
pub fn decode_heartbeat(data: &Vec<u8>) -> (r: Result<Heartbeat, DecodeError>)
    ensures
        match r {
            Ok(m) => spec_decode_heartbeat(data@) == Some(m@),
            Err(e) => spec_decode_heartbeat(data@) is None && e == DecodeError::PayloadInvalid,
        },
{
    let (node_id, i1) = match read_str_at(data, 0) {
        Some(p) => p,
        None => {
            return Err(DecodeError::PayloadInvalid);
        },
    };
    let (timestamp, i2) = match read_u64_at(data, i1) {
        Some(p) => p,
        None => {
            return Err(DecodeError::PayloadInvalid);
        },
    };
    let (load, i3) = match read_u32_at(data, i2) {
        Some(p) => p,
        None => {
            return Err(DecodeError::PayloadInvalid);
        },
    };
    let (uptime, i4) = match read_u64_at(data, i3) {
        Some(p) => p,
        None => {
            return Err(DecodeError::PayloadInvalid);
        },
    };
    if i4 != data.len() {
        return Err(DecodeError::PayloadInvalid);
    }
    Ok(Heartbeat { node_id, timestamp, load, uptime })
}

/// Decoding a serialized heartbeat gives back the heartbeat.
#[verifier::spinoff_prover]
#[verifier::rlimit(100)]
pub proof fn lemma_heartbeat_round_trip(v: HeartbeatV)
    requires
        v.encodable(),
    ensures
        spec_decode_heartbeat(spec_encode_heartbeat(v)) == Some(v),
{
    let p1 = spec_enc_str(v.node_id);
    let p2 = spec_u64_to_be(v.timestamp);
    let p3 = spec_u32_to_be(v.load);
    let p4 = spec_u64_to_be(v.uptime);
    let b = spec_encode_heartbeat(v);
    let o1 = p1.len() as int;
    let o2 = o1 + 8;
    let o3 = o2 + 4;
    assert(spec_read_str(b, 0) == Some((v.node_id, o1))) by {
        assert(b =~= Seq::<u8>::empty() + p1 + (p2 + p3 + p4));
        lemma_read_str_frame(Seq::<u8>::empty(), v.node_id, p2 + p3 + p4);
    }
    assert(spec_read_u64(b, o1) == Some((v.timestamp, o2))) by {
        assert(b =~= p1 + p2 + (p3 + p4));
        lemma_read_u64_frame(p1, v.timestamp, p3 + p4);
    }
    assert(spec_read_u32(b, o2) == Some((v.load, o3))) by {
        assert(b =~= (p1 + p2) + p3 + p4);
        lemma_read_u32_frame(p1 + p2, v.load, p4);
    }
    assert(spec_read_u64(b, o3) == Some((v.uptime, o3 + 8))) by {
        assert(b =~= (p1 + p2 + p3) + p4 + Seq::<u8>::empty());
        lemma_read_u64_frame(p1 + p2 + p3, v.uptime, Seq::<u8>::empty());
    }
    assert(o3 + 8 == b.len());
}

// ---------------------------------------------------------------------
// DataForward
// ---------------------------------------------------------------------

impl DataForwardV {
    /// Every field fits the width its wire encoding gives it.
    pub open spec fn encodable(self) -> bool {
        &&& encode_utf8(self.source_node).len() <= 0xFFFF
        &&& encode_utf8(self.dest_node).len() <= 0xFFFF
        &&& self.data.len() <= 0xFFFF
    }
}

pub open spec fn spec_encode_data_forward(v: DataForwardV) -> Seq<u8> {
    spec_enc_str(v.source_node) + spec_enc_str(v.dest_node) + spec_enc_bytes(v.data)
        + seq![v.protocol]
}

pub open spec fn spec_decode_data_forward(b: Seq<u8>) -> Option<DataForwardV> {
    match spec_read_str(b, 0) {
        None => None,
        Some((source_node, i1)) => match spec_read_str(b, i1) {
            None => None,
            Some((dest_node, i2)) => match spec_read_bytes(b, i2) {
                None => None,
                Some((data, i3)) => match spec_read_u8(b, i3) {
                    None => None,
                    Some((protocol, i4)) => if i4 == b.len() {
                        Some(DataForwardV { source_node, dest_node, data, protocol })
                    } else {
                        None
                    },
                },
            },
        },
    }
}

/// Serializes a data-forward message; fails only when a field exceeds the
/// width its length prefix allows.
pub fn encode_data_forward(m: &DataForward) -> (r: Result<Vec<u8>, EncodeError>)
    ensures
        m@.encodable() ==> (r matches Ok(v) && v@ == spec_encode_data_forward(m@)),
        !m@.encodable() ==> r == Err::<Vec<u8>, EncodeError>(EncodeError::TooLong),
{
    let mut out: Vec<u8> = Vec::new();
    if !push_str(&mut out, &m.source_node) {
        return Err(EncodeError::TooLong);
    }
    if !push_str(&mut out, &m.dest_node) {
        proof {
            assert(!m@.encodable());
        }
        return Err(EncodeError::TooLong);
    }
    if !push_bytes(&mut out, &m.data) {
        proof {
            assert(!m@.encodable());
        }
        return Err(EncodeError::TooLong);
    }
    out.push(m.protocol);
    proof {
        assert(out@ =~= spec_encode_data_forward(m@));
    }
    Ok(out)
}

/// Parses a data-forward payload; accepts exactly the canonical encoding.
pub fn decode_data_forward(data: &Vec<u8>) -> (r: Result<DataForward, DecodeError>)
    ensures
        match r {
            Ok(m) => spec_decode_data_forward(data@) == Some(m@),
            Err(e) => spec_decode_data_forward(data@) is None && e == DecodeError::PayloadInvalid,
        },
{
    let (source_node, i1) = match read_str_at(data, 0) {
        Some(p) => p,
        None => {
            return Err(DecodeError::PayloadInvalid);
        },
    };
    let (dest_node, i2) = match read_str_at(data, i1) {
        Some(p) => p,
        None => {
            return Err(DecodeError::PayloadInvalid);
        },
    };
    let (payload, i3) = match read_bytes_at(data, i2) {
        Some(p) => p,
        None => {
            return Err(DecodeError::PayloadInvalid);
        },
    };
    let (protocol, i4) = match read_u8_at(data, i3) {
        Some(p) => p,
        None => {
            return Err(DecodeError::PayloadInvalid);
        },
    };
    if i4 != data.len() {
        return Err(DecodeError::PayloadInvalid);
    }
    Ok(DataForward { source_node, dest_node, data: payload, protocol })
}

/// Decoding a serialized data-forward message gives it back.
#[verifier::spinoff_prover]
#[verifier::rlimit(100)]
pub proof fn lemma_data_forward_round_trip(v: DataForwardV)
    requires
        v.encodable(),
    ensures
        spec_decode_data_forward(spec_encode_data_forward(v)) == Some(v),
{
    let p1 = spec_enc_str(v.source_node);
    let p2 = spec_enc_str(v.dest_node);
    let p3 = spec_enc_bytes(v.data);
    let p4 = seq![v.protocol];
    let b = spec_encode_data_forward(v);
    let o1 = p1.len() as int;
    let o2 = o1 + p2.len();
    let o3 = o2 + p3.len();
    assert(spec_read_str(b, 0) == Some((v.source_node, o1))) by {
        assert(b =~= Seq::<u8>::empty() + p1 + (p2 + p3 + p4));
        lemma_read_str_frame(Seq::<u8>::empty(), v.source_node, p2 + p3 + p4);
    }
    assert(spec_read_str(b, o1) == Some((v.dest_node, o2))) by {
        assert(b =~= p1 + p2 + (p3 + p4));
        lemma_read_str_frame(p1, v.dest_node, p3 + p4);
    }
    assert(spec_read_bytes(b, o2) == Some((v.data, o3))) by {
        assert(b =~= (p1 + p2) + p3 + p4);
        lemma_read_bytes_frame(p1 + p2, v.data, p4);
    }
    assert(spec_read_u8(b, o3) == Some((v.protocol, o3 + 1))) by {
        assert(b =~= (p1 + p2 + p3) + p4 + Seq::<u8>::empty());
        lemma_read_u8_frame(p1 + p2 + p3, v.protocol, Seq::<u8>::empty());
    }
    assert(o3 + 1 == b.len());
}


// ---------------------------------------------------------------------
// HandshakeRequest
// ---------------------------------------------------------------------

impl HandshakeRequestV {
    /// Every field fits the width its wire encoding gives it.
    pub open spec fn encodable(self) -> bool {
        &&& self.public_key.len() <= 0xFFFF
        &&& encode_utf8(self.node_id).len() <= 0xFFFF
        &&& encode_utf8(self.node_name).len() <= 0xFFFF
        &&& self.supported_protocols.len() <= 0xFFFF
    }
}

pub open spec fn spec_encode_handshake_request(v: HandshakeRequestV) -> Seq<u8> {
    seq![v.version] + spec_enc_bytes(v.public_key) + spec_enc_str(v.node_id) + spec_enc_str(
        v.node_name,
    ) + spec_enc_bytes(v.supported_protocols) + spec_u32_to_be(v.capabilities)
}

pub open spec fn spec_decode_handshake_request(b: Seq<u8>) -> Option<HandshakeRequestV> {
    match spec_read_u8(b, 0) {
        None => None,
        Some((version, i1)) => match spec_read_bytes(b, i1) {
            None => None,
            Some((public_key, i2)) => match spec_read_str(b, i2) {
                None => None,
                Some((node_id, i3)) => match spec_read_str(b, i3) {
                    None => None,
                    Some((node_name, i4)) => match spec_read_bytes(b, i4) {
                        None => None,
                        Some((supported_protocols, i5)) => match spec_read_u32(b, i5) {
                            None => None,
                            Some((capabilities, i6)) => if i6 == b.len() {
                                Some(
                                    HandshakeRequestV {
                                        version,
                                        public_key,
                                        node_id,
                                        node_name,
                                        supported_protocols,
                                        capabilities,
                                    },
                                )
                            } else {
                                None
                            },
                        },
                    },
                },
            },
        },
    }
}

/// Serializes a handshake request; fails only when a field exceeds the
/// width its length prefix allows.
pub fn encode_handshake_request(m: &HandshakeRequest) -> (r: Result<Vec<u8>, EncodeError>)
    ensures
        m@.encodable() ==> (r matches Ok(v) && v@ == spec_encode_handshake_request(m@)),
        !m@.encodable() ==> r == Err::<Vec<u8>, EncodeError>(EncodeError::TooLong),
{
    let mut out: Vec<u8> = Vec::new();
    out.push(m.version);
    if !push_bytes(&mut out, &m.public_key) {
        return Err(EncodeError::TooLong);
    }
    if !push_str(&mut out, &m.node_id) {
        return Err(EncodeError::TooLong);
    }
    if !push_str(&mut out, &m.node_name) {
        return Err(EncodeError::TooLong);
    }
    if !push_bytes(&mut out, &m.supported_protocols) {
        return Err(EncodeError::TooLong);
    }
    push_u32_be(&mut out, m.capabilities);
    proof {
        assert(out@ =~= spec_encode_handshake_request(m@));
    }
    Ok(out)
}

/// Parses a handshake-request payload; accepts exactly the canonical
/// encoding.
pub fn decode_handshake_request(data: &Vec<u8>) -> (r: Result<HandshakeRequest, DecodeError>)
    ensures
        match r {
            Ok(m) => spec_decode_handshake_request(data@) == Some(m@),
            Err(e) => spec_decode_handshake_request(data@) is None && e
                == DecodeError::PayloadInvalid,
        },
{
    let (version, i1) = match read_u8_at(data, 0) {
        Some(p) => p,
        None => {
            return Err(DecodeError::PayloadInvalid);
        },
    };
    let (public_key, i2) = match read_bytes_at(data, i1) {
        Some(p) => p,
        None => {
            return Err(DecodeError::PayloadInvalid);
        },
    };
    let (node_id, i3) = match read_str_at(data, i2) {
        Some(p) => p,
        None => {
            return Err(DecodeError::PayloadInvalid);
        },
    };
    let (node_name, i4) = match read_str_at(data, i3) {
        Some(p) => p,
        None => {
            return Err(DecodeError::PayloadInvalid);
        },
    };
    let (supported_protocols, i5) = match read_bytes_at(data, i4) {
        Some(p) => p,
        None => {
            return Err(DecodeError::PayloadInvalid);
        },
    };
    let (capabilities, i6) = match read_u32_at(data, i5) {
        Some(p) => p,
        None => {
            return Err(DecodeError::PayloadInvalid);
        },
    };
    if i6 != data.len() {
        return Err(DecodeError::PayloadInvalid);
    }
    Ok(HandshakeRequest { version, public_key, node_id, node_name, supported_protocols, capabilities })
}

/// Decoding a serialized handshake request gives it back.
#[verifier::spinoff_prover]
#[verifier::rlimit(100)]
pub proof fn lemma_handshake_request_round_trip(v: HandshakeRequestV)
    requires
        v.encodable(),
    ensures
        spec_decode_handshake_request(spec_encode_handshake_request(v)) == Some(v),
{
    let p1 = seq![v.version];
    let p2 = spec_enc_bytes(v.public_key);
    let p3 = spec_enc_str(v.node_id);
    let p4 = spec_enc_str(v.node_name);
    let p5 = spec_enc_bytes(v.supported_protocols);
    let p6 = spec_u32_to_be(v.capabilities);
    let b = spec_encode_handshake_request(v);
    let o1 = 1int;
    let o2 = o1 + p2.len();
    let o3 = o2 + p3.len();
    let o4 = o3 + p4.len();
    let o5 = o4 + p5.len();
    assert(spec_read_u8(b, 0) == Some((v.version, o1))) by {
        assert(b =~= Seq::<u8>::empty() + p1 + (p2 + p3 + p4 + p5 + p6));
        lemma_read_u8_frame(Seq::<u8>::empty(), v.version, p2 + p3 + p4 + p5 + p6);
    }
    assert(spec_read_bytes(b, o1) == Some((v.public_key, o2))) by {
        assert(b =~= p1 + p2 + (p3 + p4 + p5 + p6));
        lemma_read_bytes_frame(p1, v.public_key, p3 + p4 + p5 + p6);
    }
    assert(spec_read_str(b, o2) == Some((v.node_id, o3))) by {
        assert(b =~= (p1 + p2) + p3 + (p4 + p5 + p6));
        lemma_read_str_frame(p1 + p2, v.node_id, p4 + p5 + p6);
    }
    assert(spec_read_str(b, o3) == Some((v.node_name, o4))) by {
        assert(b =~= (p1 + p2 + p3) + p4 + (p5 + p6));
        lemma_read_str_frame(p1 + p2 + p3, v.node_name, p5 + p6);
    }
    assert(spec_read_bytes(b, o4) == Some((v.supported_protocols, o5))) by {
        assert(b =~= (p1 + p2 + p3 + p4) + p5 + p6);
        lemma_read_bytes_frame(p1 + p2 + p3 + p4, v.supported_protocols, p6);
    }
    assert(spec_read_u32(b, o5) == Some((v.capabilities, o5 + 4))) by {
        assert(b =~= (p1 + p2 + p3 + p4 + p5) + p6 + Seq::<u8>::empty());
        lemma_read_u32_frame(p1 + p2 + p3 + p4 + p5, v.capabilities, Seq::<u8>::empty());
    }
    assert(o5 + 4 == b.len());
}

// ---------------------------------------------------------------------
// HandshakeResponse
// ---------------------------------------------------------------------

impl HandshakeResponseV {
    /// Every field fits the width its wire encoding gives it.
    pub open spec fn encodable(self) -> bool {
        &&& self.public_key.len() <= 0xFFFF
        &&& encode_utf8(self.node_id).len() <= 0xFFFF
        &&& encode_utf8(self.node_name).len() <= 0xFFFF
        &&& encode_utf8(self.message).len() <= 0xFFFF
        &&& self.session_key.len() <= 0xFFFF
    }
}

pub open spec fn spec_encode_handshake_response(v: HandshakeResponseV) -> Seq<u8> {
    seq![v.version] + spec_enc_bytes(v.public_key) + spec_enc_str(v.node_id) + spec_enc_str(
        v.node_name,
    ) + seq![v.status] + spec_enc_str(v.message) + spec_enc_bytes(v.session_key)
}

pub open spec fn spec_decode_handshake_response(b: Seq<u8>) -> Option<HandshakeResponseV> {
    match spec_read_u8(b, 0) {
        None => None,
        Some((version, i1)) => match spec_read_bytes(b, i1) {
            None => None,
            Some((public_key, i2)) => match spec_read_str(b, i2) {
                None => None,
                Some((node_id, i3)) => match spec_read_str(b, i3) {
                    None => None,
                    Some((node_name, i4)) => match spec_read_u8(b, i4) {
                        None => None,
                        Some((status, i5)) => match spec_read_str(b, i5) {
                            None => None,
                            Some((message, i6)) => match spec_read_bytes(b, i6) {
                                None => None,
                                Some((session_key, i7)) => if i7 == b.len() {
                                    Some(
                                        HandshakeResponseV {
                                            version,
                                            public_key,
                                            node_id,
                                            node_name,
                                            status,
                                            message,
                                            session_key,
                                        },
                                    )
                                } else {
                                    None
                                },
                            },
                        },
                    },
                },
            },
        },
    }
}

/// Serializes a handshake response; fails only when a field exceeds the
/// width its length prefix allows.
pub fn encode_handshake_response(m: &HandshakeResponse) -> (r: Result<Vec<u8>, EncodeError>)
    ensures
        m@.encodable() ==> (r matches Ok(v) && v@ == spec_encode_handshake_response(m@)),
        !m@.encodable() ==> r == Err::<Vec<u8>, EncodeError>(EncodeError::TooLong),
{
    let mut out: Vec<u8> = Vec::new();
    out.push(m.version);
    if !push_bytes(&mut out, &m.public_key) {
        return Err(EncodeError::TooLong);
    }
    if !push_str(&mut out, &m.node_id) {
        return Err(EncodeError::TooLong);
    }
    if !push_str(&mut out, &m.node_name) {
        return Err(EncodeError::TooLong);
    }
    out.push(m.status);
    if !push_str(&mut out, &m.message) {
        return Err(EncodeError::TooLong);
    }
    if !push_bytes(&mut out, &m.session_key) {
        return Err(EncodeError::TooLong);
    }
    proof {
        assert(out@ =~= spec_encode_handshake_response(m@));
    }
    Ok(out)
}

/// Parses a handshake-response payload; accepts exactly the canonical
/// encoding.
pub fn decode_handshake_response(data: &Vec<u8>) -> (r: Result<HandshakeResponse, DecodeError>)
    ensures
        match r {
            Ok(m) => spec_decode_handshake_response(data@) == Some(m@),
            Err(e) => spec_decode_handshake_response(data@) is None && e
                == DecodeError::PayloadInvalid,
        },
{
    let (version, i1) = match read_u8_at(data, 0) {
        Some(p) => p,
        None => {
            return Err(DecodeError::PayloadInvalid);
        },
    };
    let (public_key, i2) = match read_bytes_at(data, i1) {
        Some(p) => p,
        None => {
            return Err(DecodeError::PayloadInvalid);
        },
    };
    let (node_id, i3) = match read_str_at(data, i2) {
        Some(p) => p,
        None => {
            return Err(DecodeError::PayloadInvalid);
        },
    };
    let (node_name, i4) = match read_str_at(data, i3) {
        Some(p) => p,
        None => {
            return Err(DecodeError::PayloadInvalid);
        },
    };
    let (status, i5) = match read_u8_at(data, i4) {
        Some(p) => p,
        None => {
            return Err(DecodeError::PayloadInvalid);
        },
    };
    let (message, i6) = match read_str_at(data, i5) {
        Some(p) => p,
        None => {
            return Err(DecodeError::PayloadInvalid);
        },
    };
    let (session_key, i7) = match read_bytes_at(data, i6) {
        Some(p) => p,
        None => {
            return Err(DecodeError::PayloadInvalid);
        },
    };
    if i7 != data.len() {
        return Err(DecodeError::PayloadInvalid);
    }
    Ok(
        HandshakeResponse {
            version,
            public_key,
            node_id,
            node_name,
            status,
            message,
            session_key,
        },
    )
}

/// Decoding a serialized handshake response gives it back.
#[verifier::spinoff_prover]
#[verifier::rlimit(100)]
pub proof fn lemma_handshake_response_round_trip(v: HandshakeResponseV)
    requires
        v.encodable(),
    ensures
        spec_decode_handshake_response(spec_encode_handshake_response(v)) == Some(v),
{
    let p1 = seq![v.version];
    let p2 = spec_enc_bytes(v.public_key);
    let p3 = spec_enc_str(v.node_id);
    let p4 = spec_enc_str(v.node_name);
    let p5 = seq![v.status];
    let p6 = spec_enc_str(v.message);
    let p7 = spec_enc_bytes(v.session_key);
    let b = spec_encode_handshake_response(v);
    let o1 = 1int;
    let o2 = o1 + p2.len();
    let o3 = o2 + p3.len();
    let o4 = o3 + p4.len();
    let o5 = o4 + 1;
    let o6 = o5 + p6.len();
    assert(spec_read_u8(b, 0) == Some((v.version, o1))) by {
        assert(b =~= Seq::<u8>::empty() + p1 + (p2 + p3 + p4 + p5 + p6 + p7));
        lemma_read_u8_frame(Seq::<u8>::empty(), v.version, p2 + p3 + p4 + p5 + p6 + p7);
    }
    assert(spec_read_bytes(b, o1) == Some((v.public_key, o2))) by {
        assert(b =~= p1 + p2 + (p3 + p4 + p5 + p6 + p7));
        lemma_read_bytes_frame(p1, v.public_key, p3 + p4 + p5 + p6 + p7);
    }
    assert(spec_read_str(b, o2) == Some((v.node_id, o3))) by {
        assert(b =~= (p1 + p2) + p3 + (p4 + p5 + p6 + p7));
        lemma_read_str_frame(p1 + p2, v.node_id, p4 + p5 + p6 + p7);
    }
    assert(spec_read_str(b, o3) == Some((v.node_name, o4))) by {
        assert(b =~= (p1 + p2 + p3) + p4 + (p5 + p6 + p7));
        lemma_read_str_frame(p1 + p2 + p3, v.node_name, p5 + p6 + p7);
    }
    assert(spec_read_u8(b, o4) == Some((v.status, o5))) by {
        assert(b =~= (p1 + p2 + p3 + p4) + p5 + (p6 + p7));
        lemma_read_u8_frame(p1 + p2 + p3 + p4, v.status, p6 + p7);
    }
    assert(spec_read_str(b, o5) == Some((v.message, o6))) by {
        assert(b =~= (p1 + p2 + p3 + p4 + p5) + p6 + p7);
        lemma_read_str_frame(p1 + p2 + p3 + p4 + p5, v.message, p7);
    }
    assert(spec_read_bytes(b, o6) == Some((v.session_key, o6 + p7.len()))) by {
        assert(b =~= (p1 + p2 + p3 + p4 + p5 + p6) + p7 + Seq::<u8>::empty());
        lemma_read_bytes_frame(p1 + p2 + p3 + p4 + p5 + p6, v.session_key, Seq::<u8>::empty());
    }
    assert(o6 + p7.len() == b.len());
}


// ---------------------------------------------------------------------
// Optional and boolean fields
// ---------------------------------------------------------------------

pub open spec fn spec_enc_bool(x: bool) -> Seq<u8> {
    if x {
        seq![1u8]
    } else {
        seq![0u8]
    }
}

pub open spec fn spec_read_bool(b: Seq<u8>, i: int) -> Option<(bool, int)> {
    match spec_read_u8(b, i) {
        None => None,
        Some((x, j)) => if x == 0 {
            Some((false, j))
        } else if x == 1 {
            Some((true, j))
        } else {
            None
        },
    }
}

fn read_bool_at(b: &Vec<u8>, i: usize) -> (r: Option<(bool, usize)>)
    ensures
        match r {
            Some(p) => spec_read_bool(b@, i as int) == Some((p.0, p.1 as int)) && p.1 <= b@.len(),
            None => spec_read_bool(b@, i as int) is None,
        },
{
    match read_u8_at(b, i) {
        None => None,
        Some((x, j)) => if x == 0 {
            Some((false, j))
        } else if x == 1 {
            Some((true, j))
        } else {
            None
        },
    }
}

proof fn lemma_read_bool_frame(pre: Seq<u8>, x: bool, rest: Seq<u8>)
    ensures
        spec_read_bool(pre + spec_enc_bool(x) + rest, pre.len() as int) == Some(
            (x, pre.len() as int + 1),
        ),
{
    if x {
        lemma_read_u8_frame(pre, 1u8, rest);
    } else {
        lemma_read_u8_frame(pre, 0u8, rest);
    }
}

/// An optional string: a presence byte, then the string when present.
pub open spec fn spec_enc_opt_str(o: Option<Seq<char>>) -> Seq<u8> {
    match o {
        None => seq![0u8],
        Some(s) => seq![1u8] + spec_enc_str(s),
    }
}

pub open spec fn spec_read_opt_str(b: Seq<u8>, i: int) -> Option<(Option<Seq<char>>, int)> {
    match spec_read_u8(b, i) {
        None => None,
        Some((f, j)) => if f == 0 {
            Some((None, j))
        } else if f == 1 {
            match spec_read_str(b, j) {
                None => None,
                Some((t, k)) => Some((Some(t), k)),
            }
        } else {
            None
        },
    }
}

fn read_opt_str_at(b: &Vec<u8>, i: usize) -> (r: Option<(Option<String>, usize)>)
    ensures
        match r {
            Some(p) => spec_read_opt_str(b@, i as int) == Some(
                (
                    match p.0 {
                        Some(t) => Some(t@),
                        None => None,
                    },
                    p.1 as int,
                ),
            ) && p.1 <= b@.len(),
            None => spec_read_opt_str(b@, i as int) is None,
        },
{
    match read_u8_at(b, i) {
        None => None,
        Some((f, j)) => if f == 0 {
            Some((None, j))
        } else if f == 1 {
            match read_str_at(b, j) {
                None => None,
                Some((t, k)) => Some((Some(t), k)),
            }
        } else {
            None
        },
    }
}

proof fn lemma_read_opt_str_frame(pre: Seq<u8>, o: Option<Seq<char>>, rest: Seq<u8>)
    requires
        o matches Some(s) ==> encode_utf8(s).len() <= 0xFFFF,
    ensures
        spec_read_opt_str(pre + spec_enc_opt_str(o) + rest, pre.len() as int) == Some(
            (o, pre.len() as int + spec_enc_opt_str(o).len()),
        ),
{
    match o {
        None => {
            lemma_read_u8_frame(pre, 0u8, rest);
        },
        Some(t) => {
            let b = pre + spec_enc_opt_str(o) + rest;
            assert(b =~= pre + seq![1u8] + (spec_enc_str(t) + rest));
            lemma_read_u8_frame(pre, 1u8, spec_enc_str(t) + rest);
            assert(b =~= (pre + seq![1u8]) + spec_enc_str(t) + rest);
            lemma_read_str_frame(pre + seq![1u8], t, rest);
        },
    }
}

/// An optional timestamp: a presence byte, then the value when present.
pub open spec fn spec_enc_opt_u64(o: Option<u64>) -> Seq<u8> {
    match o {
        None => seq![0u8],
        Some(x) => seq![1u8] + spec_u64_to_be(x),
    }
}

pub open spec fn spec_read_opt_u64(b: Seq<u8>, i: int) -> Option<(Option<u64>, int)> {
    match spec_read_u8(b, i) {
        None => None,
        Some((f, j)) => if f == 0 {
            Some((None, j))
        } else if f == 1 {
            match spec_read_u64(b, j) {
                None => None,
                Some((x, k)) => Some((Some(x), k)),
            }
        } else {
            None
        },
    }
}

fn read_opt_u64_at(b: &Vec<u8>, i: usize) -> (r: Option<(Option<u64>, usize)>)
    ensures
        match r {
            Some(p) => spec_read_opt_u64(b@, i as int) == Some((p.0, p.1 as int)) && p.1
                <= b@.len(),
            None => spec_read_opt_u64(b@, i as int) is None,
        },
{
    match read_u8_at(b, i) {
        None => None,
        Some((f, j)) => if f == 0 {
            Some((None, j))
        } else if f == 1 {
            match read_u64_at(b, j) {
                None => None,
                Some((x, k)) => Some((Some(x), k)),
            }
        } else {
            None
        },
    }
}

proof fn lemma_read_opt_u64_frame(pre: Seq<u8>, o: Option<u64>, rest: Seq<u8>)
    ensures
        spec_read_opt_u64(pre + spec_enc_opt_u64(o) + rest, pre.len() as int) == Some(
            (o, pre.len() as int + spec_enc_opt_u64(o).len()),
        ),
{
    match o {
        None => {
            lemma_read_u8_frame(pre, 0u8, rest);
        },
        Some(x) => {
            let b = pre + spec_enc_opt_u64(o) + rest;
            assert(b =~= pre + seq![1u8] + (spec_u64_to_be(x) + rest));
            lemma_read_u8_frame(pre, 1u8, spec_u64_to_be(x) + rest);
            assert(b =~= (pre + seq![1u8]) + spec_u64_to_be(x) + rest);
            lemma_read_u64_frame(pre + seq![1u8], x, rest);
        },
    }
}


// ---------------------------------------------------------------------
// NodeInfo
// ---------------------------------------------------------------------

impl NodeInfoV {
    /// Every field fits the width its wire encoding gives it.
    pub open spec fn encodable(self) -> bool {
        &&& encode_utf8(self.node_id).len() <= 0xFFFF
        &&& encode_utf8(self.node_name).len() <= 0xFFFF
        &&& self.public_key.len() <= 0xFFFF
        &&& self.address.ip.len() <= 0xFFFF
        &&& encode_utf8(self.virtual_ip).len() <= 0xFFFF
        &&& encode_utf8(self.subnet).len() <= 0xFFFF
    }
}

pub open spec fn spec_encode_node_info(v: NodeInfoV) -> Seq<u8> {
    spec_enc_str(v.node_id) + spec_enc_str(v.node_name) + spec_enc_bytes(v.public_key)
        + spec_enc_bytes(v.address.ip) + spec_u16_to_be(v.address.port) + spec_enc_str(
        v.virtual_ip,
    ) + spec_enc_str(v.subnet) + spec_enc_bool(v.online) + spec_u64_to_be(v.last_seen)
        + spec_u32_to_be(v.capabilities)
}

pub open spec fn spec_decode_node_info(b: Seq<u8>) -> Option<NodeInfoV> {
    match spec_read_str(b, 0) {
        None => None,
        Some((node_id, i1)) => match spec_read_str(b, i1) {
            None => None,
            Some((node_name, i2)) => match spec_read_bytes(b, i2) {
                None => None,
                Some((public_key, i3)) => match spec_read_bytes(b, i3) {
                    None => None,
                    Some((ip, i4)) => match spec_read_u16(b, i4) {
                        None => None,
                        Some((port, i5)) => match spec_read_str(b, i5) {
                            None => None,
                            Some((virtual_ip, i6)) => match spec_read_str(b, i6) {
                                None => None,
                                Some((subnet, i7)) => match spec_read_bool(b, i7) {
                                    None => None,
                                    Some((online, i8)) => match spec_read_u64(b, i8) {
                                        None => None,
                                        Some((last_seen, i9)) => match spec_read_u32(b, i9) {
                                            None => None,
                                            Some((capabilities, i10)) => if i10 == b.len() {
                                                Some(
                                                    NodeInfoV {
                                                        node_id,
                                                        node_name,
                                                        public_key,
                                                        address: TransportAddrV { ip, port },
                                                        virtual_ip,
                                                        subnet,
                                                        online,
                                                        last_seen,
                                                        capabilities,
                                                    },
                                                )
                                            } else {
                                                None
                                            },
                                        },
                                    },
                                },
                            },
                        },
                    },
                },
            },
        },
    }
}

/// Serializes a node-info message; fails only when a field exceeds the
/// width its length prefix allows.
pub fn encode_node_info(m: &NodeInfo) -> (r: Result<Vec<u8>, EncodeError>)
    ensures
        m@.encodable() ==> (r matches Ok(v) && v@ == spec_encode_node_info(m@)),
        !m@.encodable() ==> r == Err::<Vec<u8>, EncodeError>(EncodeError::TooLong),
{
    let mut out: Vec<u8> = Vec::new();
    if !push_str(&mut out, &m.node_id) {
        return Err(EncodeError::TooLong);
    }
    if !push_str(&mut out, &m.node_name) {
        return Err(EncodeError::TooLong);
    }
    if !push_bytes(&mut out, &m.public_key) {
        return Err(EncodeError::TooLong);
    }
    if !push_bytes(&mut out, &m.address.ip) {
        return Err(EncodeError::TooLong);
    }
    push_u16_be(&mut out, m.address.port);
    if !push_str(&mut out, &m.virtual_ip) {
        return Err(EncodeError::TooLong);
    }
    if !push_str(&mut out, &m.subnet) {
        return Err(EncodeError::TooLong);
    }
    out.push(if m.online { 1 } else { 0 });
    push_u64_be(&mut out, m.last_seen);
    push_u32_be(&mut out, m.capabilities);
    proof {
        assert(out@ =~= spec_encode_node_info(m@));
    }
    Ok(out)
}

/// Parses a node-info payload; accepts exactly the canonical encoding.
pub fn decode_node_info(data: &Vec<u8>) -> (r: Result<NodeInfo, DecodeError>)
    ensures
        match r {
            Ok(m) => spec_decode_node_info(data@) == Some(m@),
            Err(e) => spec_decode_node_info(data@) is None && e == DecodeError::PayloadInvalid,
        },
{
    let (node_id, i1) = match read_str_at(data, 0) {
        Some(p) => p,
        None => {
            return Err(DecodeError::PayloadInvalid);
        },
    };
    let (node_name, i2) = match read_str_at(data, i1) {
        Some(p) => p,
        None => {
            return Err(DecodeError::PayloadInvalid);
        },
    };
    let (public_key, i3) = match read_bytes_at(data, i2) {
        Some(p) => p,
        None => {
            return Err(DecodeError::PayloadInvalid);
        },
    };
    let (ip, i4) = match read_bytes_at(data, i3) {
        Some(p) => p,
        None => {
            return Err(DecodeError::PayloadInvalid);
        },
    };
    let (port, i5) = match read_u16_at(data, i4) {
        Some(p) => p,
        None => {
            return Err(DecodeError::PayloadInvalid);
        },
    };
    let (virtual_ip, i6) = match read_str_at(data, i5) {
        Some(p) => p,
        None => {
            return Err(DecodeError::PayloadInvalid);
        },
    };
    let (subnet, i7) = match read_str_at(data, i6) {
        Some(p) => p,
        None => {
            return Err(DecodeError::PayloadInvalid);
        },
    };
    let (online, i8) = match read_bool_at(data, i7) {
        Some(p) => p,
        None => {
            return Err(DecodeError::PayloadInvalid);
        },
    };
    let (last_seen, i9) = match read_u64_at(data, i8) {
        Some(p) => p,
        None => {
            return Err(DecodeError::PayloadInvalid);
        },
    };
    let (capabilities, i10) = match read_u32_at(data, i9) {
        Some(p) => p,
        None => {
            return Err(DecodeError::PayloadInvalid);
        },
    };
    if i10 != data.len() {
        return Err(DecodeError::PayloadInvalid);
    }
    Ok(
        NodeInfo {
            node_id,
            node_name,
            public_key,
            address: TransportAddr { ip, port },
            virtual_ip,
            subnet,
            online,
            last_seen,
            capabilities,
        },
    )
}

/// Decoding a serialized node-info message gives it back.
#[verifier::spinoff_prover]
#[verifier::rlimit(100)]
pub proof fn lemma_node_info_round_trip(v: NodeInfoV)
    requires
        v.encodable(),
    ensures
        spec_decode_node_info(spec_encode_node_info(v)) == Some(v),
{
    let p1 = spec_enc_str(v.node_id);
    let p2 = spec_enc_str(v.node_name);
    let p3 = spec_enc_bytes(v.public_key);
    let p4 = spec_enc_bytes(v.address.ip);
    let p5 = spec_u16_to_be(v.address.port);
    let p6 = spec_enc_str(v.virtual_ip);
    let p7 = spec_enc_str(v.subnet);
    let p8 = spec_enc_bool(v.online);
    let p9 = spec_u64_to_be(v.last_seen);
    let p10 = spec_u32_to_be(v.capabilities);
    let b = spec_encode_node_info(v);
    let o1 = p1.len() as int;
    let o2 = o1 + p2.len();
    let o3 = o2 + p3.len();
    let o4 = o3 + p4.len();
    let o5 = o4 + 2;
    let o6 = o5 + p6.len();
    let o7 = o6 + p7.len();
    let o8 = o7 + 1;
    let o9 = o8 + 8;
    assert(spec_read_str(b, 0) == Some((v.node_id, o1))) by {
        assert(b =~= Seq::<u8>::empty() + p1 + (p2 + p3 + p4 + p5 + p6 + p7 + p8 + p9 + p10));
        lemma_read_str_frame(
            Seq::<u8>::empty(),
            v.node_id,
            p2 + p3 + p4 + p5 + p6 + p7 + p8 + p9 + p10,
        );
    }
    assert(spec_read_str(b, o1) == Some((v.node_name, o2))) by {
        assert(b =~= p1 + p2 + (p3 + p4 + p5 + p6 + p7 + p8 + p9 + p10));
        lemma_read_str_frame(p1, v.node_name, p3 + p4 + p5 + p6 + p7 + p8 + p9 + p10);
    }
    assert(spec_read_bytes(b, o2) == Some((v.public_key, o3))) by {
        assert(b =~= (p1 + p2) + p3 + (p4 + p5 + p6 + p7 + p8 + p9 + p10));
        lemma_read_bytes_frame(p1 + p2, v.public_key, p4 + p5 + p6 + p7 + p8 + p9 + p10);
    }
    assert(spec_read_bytes(b, o3) == Some((v.address.ip, o4))) by {
        assert(b =~= (p1 + p2 + p3) + p4 + (p5 + p6 + p7 + p8 + p9 + p10));
        lemma_read_bytes_frame(p1 + p2 + p3, v.address.ip, p5 + p6 + p7 + p8 + p9 + p10);
    }
    assert(spec_read_u16(b, o4) == Some((v.address.port, o5))) by {
        assert(b =~= (p1 + p2 + p3 + p4) + p5 + (p6 + p7 + p8 + p9 + p10));
        lemma_read_u16_frame(p1 + p2 + p3 + p4, v.address.port, p6 + p7 + p8 + p9 + p10);
    }
    assert(spec_read_str(b, o5) == Some((v.virtual_ip, o6))) by {
        assert(b =~= (p1 + p2 + p3 + p4 + p5) + p6 + (p7 + p8 + p9 + p10));
        lemma_read_str_frame(p1 + p2 + p3 + p4 + p5, v.virtual_ip, p7 + p8 + p9 + p10);
    }
    assert(spec_read_str(b, o6) == Some((v.subnet, o7))) by {
        assert(b =~= (p1 + p2 + p3 + p4 + p5 + p6) + p7 + (p8 + p9 + p10));
        lemma_read_str_frame(p1 + p2 + p3 + p4 + p5 + p6, v.subnet, p8 + p9 + p10);
    }
    assert(spec_read_bool(b, o7) == Some((v.online, o8))) by {
        assert(b =~= (p1 + p2 + p3 + p4 + p5 + p6 + p7) + p8 + (p9 + p10));
        lemma_read_bool_frame(p1 + p2 + p3 + p4 + p5 + p6 + p7, v.online, p9 + p10);
    }
    assert(spec_read_u64(b, o8) == Some((v.last_seen, o9))) by {
        assert(b =~= (p1 + p2 + p3 + p4 + p5 + p6 + p7 + p8) + p9 + p10);
        lemma_read_u64_frame(p1 + p2 + p3 + p4 + p5 + p6 + p7 + p8, v.last_seen, p10);
    }
    assert(spec_read_u32(b, o9) == Some((v.capabilities, o9 + 4))) by {
        assert(b =~= (p1 + p2 + p3 + p4 + p5 + p6 + p7 + p8 + p9) + p10 + Seq::<u8>::empty());
        lemma_read_u32_frame(
            p1 + p2 + p3 + p4 + p5 + p6 + p7 + p8 + p9,
            v.capabilities,
            Seq::<u8>::empty(),
        );
    }
    assert(o9 + 4 == b.len());
}


// ---------------------------------------------------------------------
// AuthRequest
// ---------------------------------------------------------------------

impl AuthRequestV {
    /// Every field fits the width its wire encoding gives it.
    pub open spec fn encodable(self) -> bool {
        &&& encode_utf8(self.node_id).len() <= 0xFFFF
        &&& self.public_key.len() <= 0xFFFF
        &&& self.signature.len() <= 0xFFFF
    }
}

pub open spec fn spec_encode_auth_request(v: AuthRequestV) -> Seq<u8> {
    spec_enc_str(v.node_id) + spec_enc_bytes(v.public_key) + spec_u64_to_be(v.request_time)
        + spec_enc_bytes(v.signature)
}

pub open spec fn spec_decode_auth_request(b: Seq<u8>) -> Option<AuthRequestV> {
    match spec_read_str(b, 0) {
        None => None,
        Some((node_id, i1)) => match spec_read_bytes(b, i1) {
            None => None,
            Some((public_key, i2)) => match spec_read_u64(b, i2) {
                None => None,
                Some((request_time, i3)) => match spec_read_bytes(b, i3) {
                    None => None,
                    Some((signature, i4)) => if i4 == b.len() {
                        Some(AuthRequestV { node_id, public_key, request_time, signature })
                    } else {
                        None
                    },
                },
            },
        },
    }
}

/// Serializes an authorization request; fails only when a field exceeds
/// the width its length prefix allows.
pub fn encode_auth_request(m: &AuthRequest) -> (r: Result<Vec<u8>, EncodeError>)
    ensures
        m@.encodable() ==> (r matches Ok(v) && v@ == spec_encode_auth_request(m@)),
        !m@.encodable() ==> r == Err::<Vec<u8>, EncodeError>(EncodeError::TooLong),
{
    let mut out: Vec<u8> = Vec::new();
    if !push_str(&mut out, &m.node_id) {
        return Err(EncodeError::TooLong);
    }
    if !push_bytes(&mut out, &m.public_key) {
        return Err(EncodeError::TooLong);
    }
    push_u64_be(&mut out, m.request_time);
    if !push_bytes(&mut out, &m.signature) {
        return Err(EncodeError::TooLong);
    }
    proof {
        assert(out@ =~= spec_encode_auth_request(m@));
    }
    Ok(out)
}

/// Parses an authorization-request payload; accepts exactly the canonical
/// encoding.
pub fn decode_auth_request(data: &Vec<u8>) -> (r: Result<AuthRequest, DecodeError>)
    ensures
        match r {
            Ok(m) => spec_decode_auth_request(data@) == Some(m@),
            Err(e) => spec_decode_auth_request(data@) is None && e == DecodeError::PayloadInvalid,
        },
{
    let (node_id, i1) = match read_str_at(data, 0) {
        Some(p) => p,
        None => {
            return Err(DecodeError::PayloadInvalid);
        },
    };
    let (public_key, i2) = match read_bytes_at(data, i1) {
        Some(p) => p,
        None => {
            return Err(DecodeError::PayloadInvalid);
        },
    };
    let (request_time, i3) = match read_u64_at(data, i2) {
        Some(p) => p,
        None => {
            return Err(DecodeError::PayloadInvalid);
        },
    };
    let (signature, i4) = match read_bytes_at(data, i3) {
        Some(p) => p,
        None => {
            return Err(DecodeError::PayloadInvalid);
        },
    };
    if i4 != data.len() {
        return Err(DecodeError::PayloadInvalid);
    }
    Ok(AuthRequest { node_id, public_key, request_time, signature })
}

/// Decoding a serialized authorization request gives it back.
#[verifier::spinoff_prover]
#[verifier::rlimit(100)]
pub proof fn lemma_auth_request_round_trip(v: AuthRequestV)
    requires
        v.encodable(),
    ensures
        spec_decode_auth_request(spec_encode_auth_request(v)) == Some(v),
{
    let p1 = spec_enc_str(v.node_id);
    let p2 = spec_enc_bytes(v.public_key);
    let p3 = spec_u64_to_be(v.request_time);
    let p4 = spec_enc_bytes(v.signature);
    let b = spec_encode_auth_request(v);
    let o1 = p1.len() as int;
    let o2 = o1 + p2.len();
    let o3 = o2 + 8;
    assert(spec_read_str(b, 0) == Some((v.node_id, o1))) by {
        assert(b =~= Seq::<u8>::empty() + p1 + (p2 + p3 + p4));
        lemma_read_str_frame(Seq::<u8>::empty(), v.node_id, p2 + p3 + p4);
    }
    assert(spec_read_bytes(b, o1) == Some((v.public_key, o2))) by {
        assert(b =~= p1 + p2 + (p3 + p4));
        lemma_read_bytes_frame(p1, v.public_key, p3 + p4);
    }
    assert(spec_read_u64(b, o2) == Some((v.request_time, o3))) by {
        assert(b =~= (p1 + p2) + p3 + p4);
        lemma_read_u64_frame(p1 + p2, v.request_time, p4);
    }
    assert(spec_read_bytes(b, o3) == Some((v.signature, o3 + p4.len()))) by {
        assert(b =~= (p1 + p2 + p3) + p4 + Seq::<u8>::empty());
        lemma_read_bytes_frame(p1 + p2 + p3, v.signature, Seq::<u8>::empty());
    }
    assert(o3 + p4.len() == b.len());
}

// ---------------------------------------------------------------------
// AuthResponse
// ---------------------------------------------------------------------

impl AuthResponseV {
    /// Every field fits the width its wire encoding gives it.
    pub open spec fn encodable(self) -> bool {
        &&& encode_utf8(self.node_id).len() <= 0xFFFF
        &&& encode_utf8(self.message).len() <= 0xFFFF
        &&& (self.token matches Some(t) ==> encode_utf8(t).len() <= 0xFFFF)
    }
}

pub open spec fn spec_encode_auth_response(v: AuthResponseV) -> Seq<u8> {
    spec_enc_str(v.node_id) + seq![v.status] + spec_enc_str(v.message) + spec_enc_opt_str(v.token)
        + spec_enc_opt_u64(v.expires_at)
}

pub open spec fn spec_decode_auth_response(b: Seq<u8>) -> Option<AuthResponseV> {
    match spec_read_str(b, 0) {
        None => None,
        Some((node_id, i1)) => match spec_read_u8(b, i1) {
            None => None,
            Some((status, i2)) => match spec_read_str(b, i2) {
                None => None,
                Some((message, i3)) => match spec_read_opt_str(b, i3) {
                    None => None,
                    Some((token, i4)) => match spec_read_opt_u64(b, i4) {
                        None => None,
                        Some((expires_at, i5)) => if i5 == b.len() {
                            Some(AuthResponseV { node_id, status, message, token, expires_at })
                        } else {
                            None
                        },
                    },
                },
            },
        },
    }
}

/// Serializes an authorization response; fails only when a field exceeds
/// the width its length prefix allows.
pub fn encode_auth_response(m: &AuthResponse) -> (r: Result<Vec<u8>, EncodeError>)
    ensures
        m@.encodable() ==> (r matches Ok(v) && v@ == spec_encode_auth_response(m@)),
        !m@.encodable() ==> r == Err::<Vec<u8>, EncodeError>(EncodeError::TooLong),
{
    let mut out: Vec<u8> = Vec::new();
    if !push_str(&mut out, &m.node_id) {
        return Err(EncodeError::TooLong);
    }
    out.push(m.status);
    if !push_str(&mut out, &m.message) {
        return Err(EncodeError::TooLong);
    }
    match &m.token {
        None => {
            out.push(0);
        },
        Some(t) => {
            out.push(1);
            if !push_str(&mut out, t) {
                return Err(EncodeError::TooLong);
            }
        },
    }
    match &m.expires_at {
        None => {
            out.push(0);
        },
        Some(x) => {
            out.push(1);
            push_u64_be(&mut out, *x);
        },
    }
    proof {
        assert(out@ =~= spec_encode_auth_response(m@));
    }
    Ok(out)
}

/// Parses an authorization-response payload; accepts exactly the
/// canonical encoding.
pub fn decode_auth_response(data: &Vec<u8>) -> (r: Result<AuthResponse, DecodeError>)
    ensures
        match r {
            Ok(m) => spec_decode_auth_response(data@) == Some(m@),
            Err(e) => spec_decode_auth_response(data@) is None && e == DecodeError::PayloadInvalid,
        },
{
    let (node_id, i1) = match read_str_at(data, 0) {
        Some(p) => p,
        None => {
            return Err(DecodeError::PayloadInvalid);
        },
    };
    let (status, i2) = match read_u8_at(data, i1) {
        Some(p) => p,
        None => {
            return Err(DecodeError::PayloadInvalid);
        },
    };
    let (message, i3) = match read_str_at(data, i2) {
        Some(p) => p,
        None => {
            return Err(DecodeError::PayloadInvalid);
        },
    };
    let (token, i4) = match read_opt_str_at(data, i3) {
        Some(p) => p,
        None => {
            return Err(DecodeError::PayloadInvalid);
        },
    };
    let (expires_at, i5) = match read_opt_u64_at(data, i4) {
        Some(p) => p,
        None => {
            return Err(DecodeError::PayloadInvalid);
        },
    };
    if i5 != data.len() {
        return Err(DecodeError::PayloadInvalid);
    }
    Ok(AuthResponse { node_id, status, message, token, expires_at })
}

/// Decoding a serialized authorization response gives it back.
#[verifier::spinoff_prover]
#[verifier::rlimit(100)]
pub proof fn lemma_auth_response_round_trip(v: AuthResponseV)
    requires
        v.encodable(),
    ensures
        spec_decode_auth_response(spec_encode_auth_response(v)) == Some(v),
{
    let p1 = spec_enc_str(v.node_id);
    let p2 = seq![v.status];
    let p3 = spec_enc_str(v.message);
    let p4 = spec_enc_opt_str(v.token);
    let p5 = spec_enc_opt_u64(v.expires_at);
    let b = spec_encode_auth_response(v);
    let o1 = p1.len() as int;
    let o2 = o1 + 1;
    let o3 = o2 + p3.len();
    let o4 = o3 + p4.len();
    assert(spec_read_str(b, 0) == Some((v.node_id, o1))) by {
        assert(b =~= Seq::<u8>::empty() + p1 + (p2 + p3 + p4 + p5));
        lemma_read_str_frame(Seq::<u8>::empty(), v.node_id, p2 + p3 + p4 + p5);
    }
    assert(spec_read_u8(b, o1) == Some((v.status, o2))) by {
        assert(b =~= p1 + p2 + (p3 + p4 + p5));
        lemma_read_u8_frame(p1, v.status, p3 + p4 + p5);
    }
    assert(spec_read_str(b, o2) == Some((v.message, o3))) by {
        assert(b =~= (p1 + p2) + p3 + (p4 + p5));
        lemma_read_str_frame(p1 + p2, v.message, p4 + p5);
    }
    assert(spec_read_opt_str(b, o3) == Some((v.token, o4))) by {
        assert(b =~= (p1 + p2 + p3) + p4 + p5);
        lemma_read_opt_str_frame(p1 + p2 + p3, v.token, p5);
    }
    assert(spec_read_opt_u64(b, o4) == Some((v.expires_at, o4 + p5.len()))) by {
        assert(b =~= (p1 + p2 + p3 + p4) + p5 + Seq::<u8>::empty());
        lemma_read_opt_u64_frame(p1 + p2 + p3 + p4, v.expires_at, Seq::<u8>::empty());
    }
    assert(o4 + p5.len() == b.len());
}


// ---------------------------------------------------------------------
// RouteUpdate
// ---------------------------------------------------------------------

impl RouteEntryV {
    /// Every field fits the width its wire encoding gives it.
    pub open spec fn encodable(self) -> bool {
        &&& encode_utf8(self.network).len() <= 0xFFFF
        &&& encode_utf8(self.mask).len() <= 0xFFFF
        &&& encode_utf8(self.gateway).len() <= 0xFFFF
    }
}

impl RouteUpdateV {
    /// Every field fits the width its wire encoding gives it.
    pub open spec fn encodable(self) -> bool {
        &&& encode_utf8(self.node_id).len() <= 0xFFFF
        &&& self.routes.len() <= 0xFFFF
        &&& (forall|i: int| 0 <= i < self.routes.len() ==> (#[trigger] self.routes[i]).encodable())
    }
}

pub open spec fn spec_enc_route_entry(e: RouteEntryV) -> Seq<u8> {
    spec_enc_str(e.network) + spec_enc_str(e.mask) + spec_enc_str(e.gateway) + spec_u32_to_be(
        e.metric,
    )
}

pub open spec fn spec_enc_route_entries(rs: Seq<RouteEntryV>) -> Seq<u8>
    decreases rs.len(),
{
    if rs.len() == 0 {
        Seq::empty()
    } else {
        spec_enc_route_entry(rs[0]) + spec_enc_route_entries(rs.drop_first())
    }
}

pub open spec fn spec_encode_route_update(v: RouteUpdateV) -> Seq<u8> {
    spec_enc_str(v.node_id) + spec_u16_to_be(v.routes.len() as u16) + spec_enc_route_entries(
        v.routes,
    )
}

pub open spec fn spec_read_route_entry(b: Seq<u8>, i: int) -> Option<(RouteEntryV, int)> {
    match spec_read_str(b, i) {
        None => None,
        Some((network, i1)) => match spec_read_str(b, i1) {
            None => None,
            Some((mask, i2)) => match spec_read_str(b, i2) {
                None => None,
                Some((gateway, i3)) => match spec_read_u32(b, i3) {
                    None => None,
                    Some((metric, i4)) => Some((RouteEntryV { network, mask, gateway, metric }, i4)),
                },
            },
        },
    }
}

pub open spec fn spec_read_route_entries(b: Seq<u8>, i: int, k: nat) -> Option<
    (Seq<RouteEntryV>, int),
>
    decreases k,
{
    if k == 0 {
        Some((Seq::empty(), i))
    } else {
        match spec_read_route_entry(b, i) {
            None => None,
            Some((e, j)) => match spec_read_route_entries(b, j, (k - 1) as nat) {
                None => None,
                Some((rest, end)) => Some((seq![e] + rest, end)),
            },
        }
    }
}

pub open spec fn spec_decode_route_update(b: Seq<u8>) -> Option<RouteUpdateV> {
    match spec_read_str(b, 0) {
        None => None,
        Some((node_id, i1)) => match spec_read_u16(b, i1) {
            None => None,
            Some((count, i2)) => match spec_read_route_entries(b, i2, count as nat) {
                None => None,
                Some((routes, i3)) => if i3 == b.len() {
                    Some(RouteUpdateV { node_id, routes })
                } else {
                    None
                },
            },
        },
    }
}

proof fn lemma_enc_route_entries_snoc(rs: Seq<RouteEntryV>, e: RouteEntryV)
    ensures
        spec_enc_route_entries(rs.push(e)) == spec_enc_route_entries(rs) + spec_enc_route_entry(e),
    decreases rs.len(),
{
    if rs.len() == 0 {
        let t = rs.push(e);
        assert(t[0] == e);
        assert(t.drop_first() =~= Seq::<RouteEntryV>::empty());
        assert(spec_enc_route_entries(t.drop_first()) == Seq::<u8>::empty());
        assert(spec_enc_route_entries(t) =~= spec_enc_route_entries(rs) + spec_enc_route_entry(e));
    } else {
        let t = rs.push(e);
        assert(t[0] == rs[0]);
        assert(t.drop_first() =~= rs.drop_first().push(e));
        lemma_enc_route_entries_snoc(rs.drop_first(), e);
        assert(spec_enc_route_entries(t) =~= spec_enc_route_entries(rs) + spec_enc_route_entry(e));
    }
}

fn read_route_entry_at(b: &Vec<u8>, i: usize) -> (r: Option<(RouteEntry, usize)>)
    ensures
        match r {
            Some(p) => spec_read_route_entry(b@, i as int) == Some((p.0@, p.1 as int)) && p.1
                <= b@.len(),
            None => spec_read_route_entry(b@, i as int) is None,
        },
{
    let (network, i1) = match read_str_at(b, i) {
        Some(p) => p,
        None => {
            return None;
        },
    };
    let (mask, i2) = match read_str_at(b, i1) {
        Some(p) => p,
        None => {
            return None;
        },
    };
    let (gateway, i3) = match read_str_at(b, i2) {
        Some(p) => p,
        None => {
            return None;
        },
    };
    let (metric, i4) = match read_u32_at(b, i3) {
        Some(p) => p,
        None => {
            return None;
        },
    };
    Some((RouteEntry { network, mask, gateway, metric }, i4))
}

#[verifier::spinoff_prover]
#[verifier::rlimit(100)]
proof fn lemma_read_route_entry_frame(pre: Seq<u8>, e: RouteEntryV, rest: Seq<u8>)
    requires
        e.encodable(),
    ensures
        spec_read_route_entry(pre + spec_enc_route_entry(e) + rest, pre.len() as int) == Some(
            (e, pre.len() as int + spec_enc_route_entry(e).len()),
        ),
{
    let p1 = spec_enc_str(e.network);
    let p2 = spec_enc_str(e.mask);
    let p3 = spec_enc_str(e.gateway);
    let p4 = spec_u32_to_be(e.metric);
    let b = pre + spec_enc_route_entry(e) + rest;
    let o0 = pre.len() as int;
    let o1 = o0 + p1.len();
    let o2 = o1 + p2.len();
    let o3 = o2 + p3.len();
    assert(spec_read_str(b, o0) == Some((e.network, o1))) by {
        assert(b =~= pre + p1 + (p2 + p3 + p4 + rest));
        lemma_read_str_frame(pre, e.network, p2 + p3 + p4 + rest);
    }
    assert(spec_read_str(b, o1) == Some((e.mask, o2))) by {
        assert(b =~= (pre + p1) + p2 + (p3 + p4 + rest));
        lemma_read_str_frame(pre + p1, e.mask, p3 + p4 + rest);
    }
    assert(spec_read_str(b, o2) == Some((e.gateway, o3))) by {
        assert(b =~= (pre + p1 + p2) + p3 + (p4 + rest));
        lemma_read_str_frame(pre + p1 + p2, e.gateway, p4 + rest);
    }
    assert(spec_read_u32(b, o3) == Some((e.metric, o3 + 4))) by {
        assert(b =~= (pre + p1 + p2 + p3) + p4 + rest);
        lemma_read_u32_frame(pre + p1 + p2 + p3, e.metric, rest);
    }
}

#[verifier::spinoff_prover]
#[verifier::rlimit(100)]
proof fn lemma_read_route_entries_frame(pre: Seq<u8>, rs: Seq<RouteEntryV>, rest: Seq<u8>)
    requires
        forall|i: int| 0 <= i < rs.len() ==> (#[trigger] rs[i]).encodable(),
    ensures
        spec_read_route_entries(pre + spec_enc_route_entries(rs) + rest, pre.len() as int, rs.len())
            == Some((rs, pre.len() as int + spec_enc_route_entries(rs).len())),
    decreases rs.len(),
{
    if rs.len() == 0 {
        assert(pre + spec_enc_route_entries(rs) + rest =~= pre + rest);
        assert(rs =~= Seq::<RouteEntryV>::empty());
    } else {
        let e = rs[0];
        let tail = rs.drop_first();
        let b = pre + spec_enc_route_entries(rs) + rest;
        assert(spec_enc_route_entries(rs) == spec_enc_route_entry(e) + spec_enc_route_entries(
            tail,
        ));
        assert(b =~= pre + spec_enc_route_entry(e) + (spec_enc_route_entries(tail) + rest));
        lemma_read_route_entry_frame(pre, e, spec_enc_route_entries(tail) + rest);
        let pre2 = pre + spec_enc_route_entry(e);
        assert(b =~= pre2 + spec_enc_route_entries(tail) + rest);
        assert(forall|i: int| 0 <= i < tail.len() ==> (#[trigger] tail[i]).encodable()) by {
            assert(forall|i: int| 0 <= i < tail.len() ==> tail[i] == rs[i + 1]);
        }
        lemma_read_route_entries_frame(pre2, tail, rest);
        assert(seq![e] + tail =~= rs);
    }
}

/// Serializes a route update; fails only when a field or the entry count
/// exceeds the width its length prefix allows.
#[verifier::spinoff_prover]
#[verifier::rlimit(100)]
pub fn encode_route_update(m: &RouteUpdate) -> (r: Result<Vec<u8>, EncodeError>)
    ensures
        m@.encodable() ==> (r matches Ok(v) && v@ == spec_encode_route_update(m@)),
        !m@.encodable() ==> r == Err::<Vec<u8>, EncodeError>(EncodeError::TooLong),
{
    let mut out: Vec<u8> = Vec::new();
    if !push_str(&mut out, &m.node_id) {
        return Err(EncodeError::TooLong);
    }
    if m.routes.len() > 0xFFFF {
        return Err(EncodeError::TooLong);
    }
    push_u16_be(&mut out, m.routes.len() as u16);
    let ghost head = out@;
    let ghost routes_v = m@.routes;
    let mut i: usize = 0;
    while i < m.routes.len()
        invariant
            i <= m.routes@.len(),
            routes_v == m@.routes,
            routes_v.len() == m.routes@.len(),
            forall|j: int| 0 <= j < routes_v.len() ==> routes_v[j] == m.routes@[j]@,
            out@ == head + spec_enc_route_entries(routes_v.take(i as int)),
            forall|j: int| 0 <= j < i ==> (#[trigger] routes_v[j]).encodable(),
        decreases m.routes@.len() - i,
    {
        let entry = &m.routes[i];
        proof {
            assert(routes_v[i as int] == m.routes@[i as int]@);
        }
        if !push_str(&mut out, &entry.network) {
            proof {
                assert(!routes_v[i as int].encodable());
            }
            return Err(EncodeError::TooLong);
        }
        if !push_str(&mut out, &entry.mask) {
            proof {
                assert(!routes_v[i as int].encodable());
            }
            return Err(EncodeError::TooLong);
        }
        if !push_str(&mut out, &entry.gateway) {
            proof {
                assert(!routes_v[i as int].encodable());
            }
            return Err(EncodeError::TooLong);
        }
        push_u32_be(&mut out, entry.metric);
        proof {
            assert(routes_v.take(i + 1) =~= routes_v.take(i as int).push(routes_v[i as int]));
            lemma_enc_route_entries_snoc(routes_v.take(i as int), routes_v[i as int]);
            assert(out@ =~= head + spec_enc_route_entries(routes_v.take(i + 1)));
        }
        i = i + 1;
    }
    proof {
        assert(routes_v.take(routes_v.len() as int) =~= routes_v);
        assert(out@ =~= spec_encode_route_update(m@));
    }
    Ok(out)
}

/// Parses a route-update payload; accepts exactly the canonical encoding.
#[verifier::spinoff_prover]
#[verifier::rlimit(100)]
pub fn decode_route_update(data: &Vec<u8>) -> (r: Result<RouteUpdate, DecodeError>)
    ensures
        match r {
            Ok(m) => spec_decode_route_update(data@) == Some(m@),
            Err(e) => spec_decode_route_update(data@) is None && e == DecodeError::PayloadInvalid,
        },
{
    let (node_id, i1) = match read_str_at(data, 0) {
        Some(p) => p,
        None => {
            return Err(DecodeError::PayloadInvalid);
        },
    };
    let (count, i2) = match read_u16_at(data, i1) {
        Some(p) => p,
        None => {
            return Err(DecodeError::PayloadInvalid);
        },
    };
    let mut routes: Vec<RouteEntry> = Vec::new();
    let mut pos: usize = i2;
    let mut k: usize = 0;
    while k < count as usize
        invariant
            k <= count as usize,
            pos <= data@.len(),
            routes@.len() == k,
            spec_read_str(data@, 0) == Some((node_id@, i1 as int)),
            spec_read_u16(data@, i1 as int) == Some((count, i2 as int)),
            match spec_read_route_entries(data@, pos as int, (count as usize - k) as nat) {
                None => spec_read_route_entries(data@, i2 as int, count as nat) is None,
                Some((rest, end)) => spec_read_route_entries(data@, i2 as int, count as nat)
                    == Some((Seq::new(routes@.len(), |j: int| routes@[j]@) + rest, end)),
            },
        decreases count as usize - k,
    {
        let ghost routes_before = Seq::new(routes@.len(), |j: int| routes@[j]@);
        let (entry, next) = match read_route_entry_at(data, pos) {
            Some(p) => p,
            None => {
                proof {
                    assert(spec_read_route_entries(
                        data@,
                        pos as int,
                        (count as usize - k) as nat,
                    ) is None);
                }
                return Err(DecodeError::PayloadInvalid);
            },
        };
        let ghost ev = entry@;
        routes.push(entry);
        proof {
            assert(Seq::new(routes@.len(), |j: int| routes@[j]@) =~= routes_before.push(ev));
            assert(spec_read_route_entries(data@, pos as int, (count as usize - k) as nat)
                == match spec_read_route_entries(
                data@,
                next as int,
                (count as usize - k - 1) as nat,
            ) {
                None => None,
                Some((rest2, end2)) => Some((seq![ev] + rest2, end2)),
            });
            match spec_read_route_entries(data@, next as int, (count as usize - k - 1) as nat) {
                None => {},
                Some((rest2, end2)) => {
                    assert(routes_before.push(ev) + rest2 =~= routes_before + (seq![ev] + rest2));
                },
            }
        }
        pos = next;
        k = k + 1;
    }
    if pos != data.len() {
        return Err(DecodeError::PayloadInvalid);
    }
    proof {
        assert(Seq::new(routes@.len(), |j: int| routes@[j]@) + Seq::<RouteEntryV>::empty() =~= Seq::new(
            routes@.len(),
            |j: int| routes@[j]@,
        ));
    }
    Ok(RouteUpdate { node_id, routes })
}

/// Decoding a serialized route update gives it back.
#[verifier::spinoff_prover]
#[verifier::rlimit(100)]
pub proof fn lemma_route_update_round_trip(v: RouteUpdateV)
    requires
        v.encodable(),
    ensures
        spec_decode_route_update(spec_encode_route_update(v)) == Some(v),
{
    let p1 = spec_enc_str(v.node_id);
    let p2 = spec_u16_to_be(v.routes.len() as u16);
    let p3 = spec_enc_route_entries(v.routes);
    let b = spec_encode_route_update(v);
    let o1 = p1.len() as int;
    let o2 = o1 + 2;
    assert(spec_read_str(b, 0) == Some((v.node_id, o1))) by {
        assert(b =~= Seq::<u8>::empty() + p1 + (p2 + p3));
        lemma_read_str_frame(Seq::<u8>::empty(), v.node_id, p2 + p3);
    }
    assert(spec_read_u16(b, o1) == Some((v.routes.len() as u16, o2))) by {
        assert(b =~= p1 + p2 + p3);
        lemma_read_u16_frame(p1, v.routes.len() as u16, p3);
    }
    assert(spec_read_route_entries(b, o2, v.routes.len()) == Some((v.routes, o2 + p3.len()))) by {
        assert(b =~= (p1 + p2) + p3 + Seq::<u8>::empty());
        lemma_read_route_entries_frame(p1 + p2, v.routes, Seq::<u8>::empty());
    }
    assert(o2 + p3.len() == b.len());
    assert((v.routes.len() as u16) as nat == v.routes.len());
}

} // verus!
