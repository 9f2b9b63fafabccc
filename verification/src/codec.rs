//! Binary framing of wire packets: the one's-complement checksum, the
//! fixed header layout, and packet encode/decode.

use vstd::prelude::*;
use vstd::arithmetic::div_mod::{
    lemma_div_non_zero, lemma_fundamental_div_mod, lemma_mod_multiples_vanish, lemma_small_mod,
};
use crate::endian::{
    lemma_u16_be_round_trip, lemma_u32_be_round_trip, push_u16_be, push_u32_be, read_u16_be,
    read_u32_be, spec_u16_from_be, spec_u16_to_be, spec_u32_from_be, spec_u32_to_be,
};
use crate::protocol::{
    lemma_msg_type_tag_round_trip, spec_msg_type_from_tag, spec_msg_type_tag, MessageType, Packet,
    PacketV, MAGIC, MAX_MESSAGE_LENGTH, PROTOCOL_VERSION,
};

verus! {

/// Why a byte buffer was rejected as a packet or payload.
#[derive(Clone, Copy, Debug, PartialEq, Eq, Structural)]
pub enum DecodeError {
    /// Shorter than the fixed header.
    MalformedHeader,
    /// Magic or version disagrees with the running protocol.
    MagicMismatch,
    /// The message-type tag is outside the declared range.
    UnknownMessageType,
    /// The length field disagrees with the payload actually present.
    LengthMismatch,
    /// The checksum does not verify against the payload.
    ChecksumMismatch,
    /// The payload does not parse as the shape its message type requires.
    PayloadInvalid,
}

/// Why a message could not be encoded.
#[derive(Clone, Copy, Debug, PartialEq, Eq, Structural)]
pub enum EncodeError {
    /// A field or payload exceeds the width its length prefix allows.
    TooLong,
}

/// Sum of the big-endian 16-bit words of `data`, the final odd byte padded
/// high-order.
pub open spec fn spec_checksum_words(data: Seq<u8>) -> nat
    decreases data.len(),
{
    if data.len() == 0 {
        0
    } else if data.len() == 1 {
        (data[0] as nat) * 256
    } else {
        (data[0] as nat) * 256 + (data[1] as nat) + spec_checksum_words(data.skip(2))
    }
}

/// End-around-carry folding of a sum into 16 bits.
pub open spec fn spec_fold16(s: nat) -> nat
    decreases s,
{
    if s < 0x10000 {
        s
    } else {
        spec_fold16((s % 0x10000) + (s / 0x10000))
    }
}

/// The wire checksum: one's complement of the folded word sum.
pub open spec fn spec_checksum(data: Seq<u8>) -> u16 {
    (0xFFFF - spec_fold16(spec_checksum_words(data)) as int) as u16
}

/// Whether `c` verifies as the checksum of `data`.
pub open spec fn spec_verify_checksum(data: Seq<u8>, c: u16) -> bool {
    spec_checksum(data) == c
}

proof fn lemma_fold16_mod(s: nat)
    ensures
        spec_fold16(s) < 0x10000,
        s == 0 ==> spec_fold16(s) == 0,
        s > 0 ==> spec_fold16(s) == ((s - 1) as nat % 0xFFFF) + 1,
    decreases s,
{
    if s < 0x10000 {
        if s > 0 {
            lemma_small_mod((s - 1) as nat, 0xFFFF);
        }
    } else {
        let q = s / 0x10000;
        let r = s % 0x10000;
        lemma_fundamental_div_mod(s as int, 0x10000);
        lemma_div_non_zero(s as int, 0x10000);
        assert(s == 0x10000 * q + r && q >= 1 && r < 0x10000);
        let s2 = (r + q) as nat;
        assert(s2 < s);
        lemma_fold16_mod(s2);
        assert(spec_fold16(s) == spec_fold16(s2));
        // s - 1 == 0xFFFF * q + (s2 - 1), so the two residues agree.
        lemma_mod_multiples_vanish(q as int, s2 - 1, 0xFFFF);
        assert(0xFFFF * (q as int) + (s2 - 1) == s - 1);
        assert(spec_fold16(s) == ((s - 1) as nat % 0xFFFF) + 1);
    }
}

/// Folding an already-folded partial sum before adding more words changes
/// nothing.
proof fn lemma_fold16_join(x: nat, y: nat)
    ensures
        spec_fold16(spec_fold16(x) + y) == spec_fold16(x + y),
{
    lemma_fold16_mod(x);
    let f = spec_fold16(x);
    lemma_fold16_mod(f + y);
    lemma_fold16_mod(x + y);
    if x == 0 {
        assert(f + y == x + y);
    } else {
        // f - 1 and x - 1 share a residue mod 0xFFFF, hence so do f + y - 1
        // and x + y - 1.
        assert(f == ((x - 1) as nat % 0xFFFF) + 1);
        let q = (x - 1) / 0xFFFF;
        lemma_fundamental_div_mod(x - 1, 0xFFFF);
        assert((x - 1) == 0xFFFF * q + (x - 1) % 0xFFFF);
        assert(f + y - 1 == (x - 1) % 0xFFFF + y);
        lemma_mod_multiples_vanish(q, (x - 1) % 0xFFFF + y, 0xFFFF);
        assert((0xFFFF * q + ((x - 1) % 0xFFFF + y)) % 0xFFFF == ((x - 1) % 0xFFFF + y) % 0xFFFF);
        assert((x + y - 1) % 0xFFFF == (f + y - 1) % 0xFFFF);
        assert(f >= 1);
    }
}

proof fn lemma_words_append_pair(s: Seq<u8>, a: u8, b: u8)
    requires
        s.len() % 2 == 0,
    ensures
        spec_checksum_words(s + seq![a, b]) == spec_checksum_words(s) + (a as nat) * 256 + (
        b as nat),
    decreases s.len(),
{
    if s.len() == 0 {
        let t = s + seq![a, b];
        assert(t.len() == 2 && t[0] == a && t[1] == b);
        assert(t.skip(2) =~= Seq::<u8>::empty());
        assert(spec_checksum_words(t.skip(2)) == 0);
    } else {
        let t = s + seq![a, b];
        assert(t.len() >= 2 && t[0] == s[0] && t[1] == s[1]);
        assert(t.skip(2) =~= s.skip(2) + seq![a, b]);
        lemma_words_append_pair(s.skip(2), a, b);
    }
}

proof fn lemma_words_append_single(s: Seq<u8>, a: u8)
    requires
        s.len() % 2 == 0,
    ensures
        spec_checksum_words(s.push(a)) == spec_checksum_words(s) + (a as nat) * 256,
    decreases s.len(),
{
    if s.len() == 0 {
        let t = s.push(a);
        assert(t.len() == 1 && t[0] == a);
    } else {
        let t = s.push(a);
        assert(t.len() >= 3 && t[0] == s[0] && t[1] == s[1]);
        assert(t.skip(2) =~= s.skip(2).push(a));
        lemma_words_append_single(s.skip(2), a);
    }
}

/// One end-around-carry reduction of a partial sum below 2^17.
fn fold_step(sum: u32) -> (r: u32)
    requires
        sum < 0x20000,
    ensures
        r < 0x10000,
        r as nat == spec_fold16(sum as nat),
{
    let mut s = sum;
    if s >= 0x10000 {
        let s1 = s % 0x10000 + s / 0x10000;
        proof {
            assert(spec_fold16(s as nat) == spec_fold16(s1 as nat));
        }
        s = s1;
    }
    if s >= 0x10000 {
        let s1 = s % 0x10000 + s / 0x10000;
        proof {
            assert(spec_fold16(s as nat) == spec_fold16(s1 as nat));
        }
        s = s1;
    }
    s
}

/// Computes the one's-complement checksum over `data`: big-endian 16-bit
/// words are summed (final odd byte padded high-order), carries are folded
/// back into the low 16 bits, and the result is complemented.
pub fn calculate_checksum(data: &Vec<u8>) -> (c: u16)
    ensures
        c == spec_checksum(data@),
{
    let n = data.len();
    let mut sum: u32 = 0;
    let mut i: usize = 0;
    proof {
        assert(data@.subrange(0, 0) =~= Seq::<u8>::empty());
    }
    while i + 1 < n
        invariant
            n == data@.len(),
            i <= n,
            i % 2 == 0,
            sum < 0x10000,
            sum as nat == spec_fold16(spec_checksum_words(data@.subrange(0, i as int))),
        decreases n - i,
    {
        let w: u32 = (data[i] as u32) * 256 + (data[i + 1] as u32);
        proof {
            let pre = data@.subrange(0, i as int);
            lemma_words_append_pair(pre, data@[i as int], data@[i + 1]);
            assert(data@.subrange(0, i + 2) =~= pre + seq![data@[i as int], data@[i + 1]]);
            lemma_fold16_join(spec_checksum_words(pre), w as nat);
        }
        sum = fold_step(sum + w);
        i = i + 2;
    }
    if i < n {
        let w: u32 = (data[i] as u32) * 256;
        proof {
            let pre = data@.subrange(0, i as int);
            lemma_words_append_single(pre, data@[i as int]);
            assert(data@.subrange(0, i + 1) =~= pre.push(data@[i as int]));
            lemma_fold16_join(spec_checksum_words(pre), w as nat);
        }
        sum = fold_step(sum + w);
        i = i + 1;
    }
    proof {
        assert(data@.subrange(0, n as int) =~= data@);
    }
    (0xFFFF - sum) as u16
}

/// True exactly when `checksum` is the checksum of `data`.
pub fn verify_checksum(data: &Vec<u8>, checksum: u16) -> (r: bool)
    ensures
        r == spec_verify_checksum(data@, checksum),
{
    calculate_checksum(data) == checksum
}

/// A computed checksum always verifies against the bytes it was computed
/// over.
pub proof fn lemma_checksum_round_trip(data: Seq<u8>)
    ensures
        spec_verify_checksum(data, spec_checksum(data)),
{
}

/// The word-sum weight of byte position `j`: the high byte of each
/// 16-bit word counts 256, the low byte 1.
pub open spec fn spec_byte_weight(j: int) -> int {
    if j % 2 == 0 {
        256
    } else {
        1
    }
}

proof fn lemma_words_one_diff(s1: Seq<u8>, s2: Seq<u8>, j: int)
    requires
        s1.len() == s2.len(),
        0 <= j < s1.len(),
        forall|k: int| 0 <= k < s1.len() && k != j ==> s1[k] == s2[k],
    ensures
        spec_checksum_words(s1) - spec_checksum_words(s2) == spec_byte_weight(j) * (s1[j] - s2[j]),
    decreases s1.len(),
{
    if s1.len() == 1 {
        assert(j == 0);
    } else if j >= 2 {
        assert(s1[0] == s2[0] && s1[1] == s2[1]);
        let t1 = s1.skip(2);
        let t2 = s2.skip(2);
        assert(forall|k: int| 0 <= k < t1.len() ==> t1[k] == s1[k + 2] && t2[k] == s2[k + 2]);
        lemma_words_one_diff(t1, t2, j - 2);
        assert((j - 2) % 2 == j % 2) by (nonlinear_arith)
            requires
                j >= 2,
        ;
        assert(t1[j - 2] == s1[j] && t2[j - 2] == s2[j]);
    } else {
        let t1 = s1.skip(2);
        let t2 = s2.skip(2);
        assert(forall|k: int| 0 <= k < t1.len() ==> t1[k] == s1[k + 2] && t2[k] == s2[k + 2]);
        assert(t1 =~= t2);
        if j == 0 {
            assert(s1[1] == s2[1]);
        } else {
            assert(s1[0] == s2[0]);
        }
    }
}

proof fn lemma_mod_close_equal(a: int, b: int, m: int)
    requires
        m > 0,
        a >= 0,
        b >= 0,
        a % m == b % m,
        a - b < m,
        b - a < m,
    ensures
        a == b,
{
    lemma_fundamental_div_mod(a, m);
    lemma_fundamental_div_mod(b, m);
    let qa = a / m;
    let qb = b / m;
    assert(a - b == m * (qa - qb)) by (nonlinear_arith)
        requires
            a == m * qa + a % m,
            b == m * qb + b % m,
            a % m == b % m,
    ;
    assert(qa == qb) by (nonlinear_arith)
        requires
            a - b == m * (qa - qb),
            a - b < m,
            b - a < m,
            m > 0,
    ;
}

/// A single flipped bit never escapes the checksum: two payloads of the
/// same length that agree everywhere except in one bit of one byte have
/// different checksums, so the flip is always detected.
pub proof fn lemma_checksum_detects_bit_flip(d1: Seq<u8>, d2: Seq<u8>, j: int, b: u8)
    requires
        d1.len() == d2.len(),
        0 <= j < d1.len(),
        b < 8,
        forall|k: int| 0 <= k < d1.len() && k != j ==> d1[k] == d2[k],
        d2[j] == d1[j] ^ (1u8 << b),
    ensures
        spec_checksum(d1) != spec_checksum(d2),
{
    let x = d1[j];
    let y = d2[j];
    assert(y != x && (y - x == (1u8 << b) || x - y == (1u8 << b)) && 1 <= (1u8 << b) <= 128) by (bit_vector)
        requires
            y == x ^ (1u8 << b),
            b < 8,
    ;
    lemma_words_one_diff(d1, d2, j);
    let w1 = spec_checksum_words(d1) as int;
    let w2 = spec_checksum_words(d2) as int;
    let delta = spec_byte_weight(j) * (x - y);
    assert(w1 - w2 == delta);
    assert(delta != 0 && delta < 0xFFFF && -delta < 0xFFFF) by (nonlinear_arith)
        requires
            delta == spec_byte_weight(j) * (x - y),
            spec_byte_weight(j) == 256 || spec_byte_weight(j) == 1,
            x - y == (1u8 << b) || y - x == (1u8 << b),
            1 <= (1u8 << b) <= 128,
    ;
    lemma_fold16_mod(w1 as nat);
    lemma_fold16_mod(w2 as nat);
    let f1 = spec_fold16(w1 as nat);
    let f2 = spec_fold16(w2 as nat);
    if w1 == 0 || w2 == 0 {
        assert(f1 != f2);
    } else {
        if f1 == f2 {
            assert((w1 - 1) % 0xFFFF == (w2 - 1) % 0xFFFF);
            lemma_mod_close_equal(w1 - 1, w2 - 1, 0xFFFF);
            assert(false);
        }
    }
    assert(spec_checksum(d1) == (0xFFFF - f1) as u16 && spec_checksum(d2) == (0xFFFF - f2) as u16);
}

/// The serialized form of a packet: fixed header, then the payload.
pub open spec fn spec_encode_packet(p: PacketV) -> Seq<u8> {
    spec_u32_to_be(p.magic) + seq![p.version, spec_msg_type_tag(p.msg_type), p.flags]
        + spec_u16_to_be(p.length) + spec_u16_to_be(p.checksum) + p.data
}

/// The parse of a byte buffer as a packet, with the typed reason a buffer
/// is rejected: short of a header, foreign magic/version, a tag outside
/// the declared range, or a length field at odds with the frame.
pub open spec fn spec_decode_packet(b: Seq<u8>) -> Result<PacketV, DecodeError> {
    if b.len() < 11 {
        Err(DecodeError::MalformedHeader)
    } else {
        let magic = spec_u32_from_be(b.subrange(0, 4));
        let version = b[4];
        let tag = b[5];
        let flags = b[6];
        let length = spec_u16_from_be(b.subrange(7, 9));
        let cksum = spec_u16_from_be(b.subrange(9, 11));
        if magic != MAGIC || version != PROTOCOL_VERSION {
            Err(DecodeError::MagicMismatch)
        } else if spec_msg_type_from_tag(tag) is None {
            Err(DecodeError::UnknownMessageType)
        } else if length != b.len() - 11 {
            Err(DecodeError::LengthMismatch)
        } else {
            Ok(
                PacketV {
                    magic: MAGIC,
                    version: PROTOCOL_VERSION,
                    msg_type: spec_msg_type_from_tag(tag)->Some_0,
                    flags: flags,
                    length: length,
                    checksum: cksum,
                    data: b.subrange(11, b.len() as int),
                },
            )
        }
    }
}

/// Copy of `v[from..to]`.
pub fn copy_range(v: &Vec<u8>, from: usize, to: usize) -> (r: Vec<u8>)
    requires
        from <= to <= v@.len(),
    ensures
        r@ == v@.subrange(from as int, to as int),
{
    let mut out: Vec<u8> = Vec::new();
    let mut i: usize = from;
    proof {
        assert(out@ =~= v@.subrange(from as int, from as int));
    }
    while i < to
        invariant
            from <= i <= to <= v@.len(),
            out@ == v@.subrange(from as int, i as int),
        decreases to - i,
    {
        out.push(v[i]);
        i = i + 1;
        assert(out@ =~= v@.subrange(from as int, i as int));
    }
    out
}

impl Packet {
    /// Builds a packet around `data` for the running protocol: magic,
    /// version, length and checksum are all derived. Rejected only when
    /// the payload exceeds the control-message ceiling.
    pub fn new(msg_type: MessageType, flags: u8, data: Vec<u8>) -> (r: Result<Packet, EncodeError>)
        ensures
            data@.len() > MAX_MESSAGE_LENGTH ==> r == Err::<Packet, EncodeError>(
                EncodeError::TooLong,
            ),
            data@.len() <= MAX_MESSAGE_LENGTH ==> (r matches Ok(p) && p@ == (PacketV {
                magic: MAGIC,
                version: PROTOCOL_VERSION,
                msg_type: msg_type,
                flags: flags,
                length: data@.len() as u16,
                checksum: spec_checksum(data@),
                data: data@,
            })),
    {
        if data.len() > MAX_MESSAGE_LENGTH as usize {
            return Err(EncodeError::TooLong);
        }
        let checksum = calculate_checksum(&data);
        Ok(
            Packet {
                magic: MAGIC,
                version: PROTOCOL_VERSION,
                msg_type,
                flags,
                length: data.len() as u16,
                checksum,
                data,
            },
        )
    }

    /// Serializes the packet: header fields in network byte order, then
    /// the payload.
    pub fn encode(&self) -> (r: Vec<u8>)
        ensures
            r@ == spec_encode_packet(self@),
    {
        let mut out: Vec<u8> = Vec::new();
        push_u32_be(&mut out, self.magic);
        out.push(self.version);
        out.push(self.msg_type.tag());
        out.push(self.flags);
        push_u16_be(&mut out, self.length);
        push_u16_be(&mut out, self.checksum);
        let mut i: usize = 0;
        let ghost head = out@;
        while i < self.data.len()
            invariant
                i <= self.data@.len(),
                out@ == head + self.data@.subrange(0, i as int),
            decreases self.data@.len() - i,
        {
            out.push(self.data[i]);
            i = i + 1;
            assert(out@ =~= head + self.data@.subrange(0, i as int));
        }
        proof {
            assert(self.data@.subrange(0, self.data@.len() as int) =~= self.data@);
            assert(out@ =~= spec_encode_packet(self@));
        }
        out
    }

    /// Parses a byte buffer as a packet. The result is exactly
    /// [`spec_decode_packet`] of the bytes.
    pub fn decode(bytes: &Vec<u8>) -> (r: Result<Packet, DecodeError>)
        ensures
            match r {
                Ok(p) => spec_decode_packet(bytes@) == Ok::<PacketV, DecodeError>(p@),
                Err(e) => spec_decode_packet(bytes@) == Err::<PacketV, DecodeError>(e),
            },
    {
        let n = bytes.len();
        if n < 11 {
            return Err(DecodeError::MalformedHeader);
        }
        let magic = read_u32_be(bytes, 0);
        let version = bytes[4];
        let tag = bytes[5];
        let flags = bytes[6];
        let length = read_u16_be(bytes, 7);
        let cksum = read_u16_be(bytes, 9);
        if magic != MAGIC || version != PROTOCOL_VERSION {
            return Err(DecodeError::MagicMismatch);
        }
        let msg_type = match MessageType::from_tag(tag) {
            Some(t) => t,
            None => {
                return Err(DecodeError::UnknownMessageType);
            },
        };
        if (length as usize) != n - 11 {
            return Err(DecodeError::LengthMismatch);
        }
        let data = copy_range(bytes, 11, n);
        Ok(Packet { magic, version, msg_type, flags, length, checksum: cksum, data })
    }
}

/// Decoding a serialized packet gives back the packet: framing loses
/// nothing for any packet of the running protocol whose length field
/// matches its payload.
pub proof fn lemma_packet_round_trip(p: PacketV)
    requires
        p.magic == MAGIC,
        p.version == PROTOCOL_VERSION,
        p.length == p.data.len(),
    ensures
        spec_decode_packet(spec_encode_packet(p)) == Ok::<PacketV, DecodeError>(p),
{
    let b = spec_encode_packet(p);
    lemma_u32_be_round_trip();
    lemma_u16_be_round_trip();
    lemma_msg_type_tag_round_trip();
    assert(b.len() == 11 + p.data.len());
    assert(b.subrange(0, 4) =~= spec_u32_to_be(p.magic));
    assert(b[4] == p.version);
    assert(b[5] == spec_msg_type_tag(p.msg_type));
    assert(b[6] == p.flags);
    assert(b.subrange(7, 9) =~= spec_u16_to_be(p.length));
    assert(b.subrange(9, 11) =~= spec_u16_to_be(p.checksum));
    assert(b.subrange(11, b.len() as int) =~= p.data);
}

} // verus!
