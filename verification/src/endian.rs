//! Big-endian (network byte order) conversions for the integer widths the
//! wire format uses, with round-trip lemmas.

use vstd::prelude::*;

verus! {

pub open spec fn spec_u16_to_be(x: u16) -> Seq<u8> {
    seq![((x >> 8) & 0xff) as u8, (x & 0xff) as u8]
}

pub open spec fn spec_u16_from_be(s: Seq<u8>) -> u16
    recommends
        s.len() == 2,
{
    ((s[0] as u16) << 8) | (s[1] as u16)
}

pub proof fn lemma_u16_be_round_trip()
    ensures
        forall|x: u16|
            {
                &&& (#[trigger] spec_u16_to_be(x)).len() == 2
                &&& spec_u16_from_be(spec_u16_to_be(x)) == x
            },
        forall|s: Seq<u8>| s.len() == 2 ==> #[trigger] spec_u16_to_be(spec_u16_from_be(s)) == s,
{
    assert forall|x: u16|
        {
            &&& (#[trigger] spec_u16_to_be(x)).len() == 2
            &&& spec_u16_from_be(spec_u16_to_be(x)) == x
        } by {
        assert((x >> 8) & 0xff < 256 && x & 0xff < 256) by (bit_vector);
        assert(x == ((((x >> 8) & 0xff) as u16) << 8) | ((x & 0xff) as u16)) by (bit_vector);
    }
    assert forall|s: Seq<u8>| s.len() == 2 implies #[trigger] spec_u16_to_be(
        spec_u16_from_be(s),
    ) == s by {
        let x = spec_u16_from_be(s);
        let s0 = s[0] as u16;
        let s1 = s[1] as u16;
        assert((x == (s0 << 8) | s1 && s0 < 256 && s1 < 256) ==> s0 == ((x >> 8) & 0xff) && s1
            == (x & 0xff)) by (bit_vector);
        assert(spec_u16_to_be(spec_u16_from_be(s)) =~= s);
    }
}

pub open spec fn spec_u32_to_be(x: u32) -> Seq<u8> {
    seq![
        ((x >> 24) & 0xff) as u8,
        ((x >> 16) & 0xff) as u8,
        ((x >> 8) & 0xff) as u8,
        (x & 0xff) as u8,
    ]
}

pub open spec fn spec_u32_from_be(s: Seq<u8>) -> u32
    recommends
        s.len() == 4,
{
    ((s[0] as u32) << 24) | ((s[1] as u32) << 16) | ((s[2] as u32) << 8) | (s[3] as u32)
}

pub proof fn lemma_u32_be_round_trip()
    ensures
        forall|x: u32|
            {
                &&& (#[trigger] spec_u32_to_be(x)).len() == 4
                &&& spec_u32_from_be(spec_u32_to_be(x)) == x
            },
        forall|s: Seq<u8>| s.len() == 4 ==> #[trigger] spec_u32_to_be(spec_u32_from_be(s)) == s,
{
    assert forall|x: u32|
        {
            &&& (#[trigger] spec_u32_to_be(x)).len() == 4
            &&& spec_u32_from_be(spec_u32_to_be(x)) == x
        } by {
        assert((x >> 24) & 0xff < 256 && (x >> 16) & 0xff < 256 && (x >> 8) & 0xff < 256 && x & 0xff
            < 256) by (bit_vector);
        assert(x == ((((x >> 24) & 0xff) as u32) << 24) | ((((x >> 16) & 0xff) as u32) << 16) | ((((
        x >> 8) & 0xff) as u32) << 8) | ((x & 0xff) as u32)) by (bit_vector);
    }
    assert forall|s: Seq<u8>| s.len() == 4 implies #[trigger] spec_u32_to_be(
        spec_u32_from_be(s),
    ) == s by {
        let x = spec_u32_from_be(s);
        let s0 = s[0] as u32;
        let s1 = s[1] as u32;
        let s2 = s[2] as u32;
        let s3 = s[3] as u32;
        assert((x == (s0 << 24) | (s1 << 16) | (s2 << 8) | s3 && s0 < 256 && s1 < 256 && s2 < 256
            && s3 < 256) ==> s0 == ((x >> 24) & 0xff) && s1 == ((x >> 16) & 0xff) && s2 == ((x >> 8)
            & 0xff) && s3 == (x & 0xff)) by (bit_vector);
        assert(spec_u32_to_be(spec_u32_from_be(s)) =~= s);
    }
}

pub open spec fn spec_u64_to_be(x: u64) -> Seq<u8> {
    seq![
        ((x >> 56) & 0xff) as u8,
        ((x >> 48) & 0xff) as u8,
        ((x >> 40) & 0xff) as u8,
        ((x >> 32) & 0xff) as u8,
        ((x >> 24) & 0xff) as u8,
        ((x >> 16) & 0xff) as u8,
        ((x >> 8) & 0xff) as u8,
        (x & 0xff) as u8,
    ]
}

pub open spec fn spec_u64_from_be(s: Seq<u8>) -> u64
    recommends
        s.len() == 8,
{
    ((s[0] as u64) << 56) | ((s[1] as u64) << 48) | ((s[2] as u64) << 40) | ((s[3] as u64) << 32)
        | ((s[4] as u64) << 24) | ((s[5] as u64) << 16) | ((s[6] as u64) << 8) | (s[7] as u64)
}

pub proof fn lemma_u64_be_round_trip()
    ensures
        forall|x: u64|
            {
                &&& (#[trigger] spec_u64_to_be(x)).len() == 8
                &&& spec_u64_from_be(spec_u64_to_be(x)) == x
            },
        forall|s: Seq<u8>| s.len() == 8 ==> #[trigger] spec_u64_to_be(spec_u64_from_be(s)) == s,
{
    assert forall|x: u64|
        {
            &&& (#[trigger] spec_u64_to_be(x)).len() == 8
            &&& spec_u64_from_be(spec_u64_to_be(x)) == x
        } by {
        assert((x >> 56) & 0xff < 256 && (x >> 48) & 0xff < 256 && (x >> 40) & 0xff < 256 && (x
            >> 32) & 0xff < 256 && (x >> 24) & 0xff < 256 && (x >> 16) & 0xff < 256 && (x >> 8)
            & 0xff < 256 && x & 0xff < 256) by (bit_vector);
        assert(x == ((((x >> 56) & 0xff) as u64) << 56) | ((((x >> 48) & 0xff) as u64) << 48) | ((((
        x >> 40) & 0xff) as u64) << 40) | ((((x >> 32) & 0xff) as u64) << 32) | ((((x >> 24) & 0xff)
            as u64) << 24) | ((((x >> 16) & 0xff) as u64) << 16) | ((((x >> 8) & 0xff) as u64) << 8)
            | ((x & 0xff) as u64)) by (bit_vector);
    }
    assert forall|s: Seq<u8>| s.len() == 8 implies #[trigger] spec_u64_to_be(
        spec_u64_from_be(s),
    ) == s by {
        let x = spec_u64_from_be(s);
        let s0 = s[0] as u64;
        let s1 = s[1] as u64;
        let s2 = s[2] as u64;
        let s3 = s[3] as u64;
        let s4 = s[4] as u64;
        let s5 = s[5] as u64;
        let s6 = s[6] as u64;
        let s7 = s[7] as u64;
        assert((x == (s0 << 56) | (s1 << 48) | (s2 << 40) | (s3 << 32) | (s4 << 24) | (s5 << 16) | (
        s6 << 8) | s7 && s0 < 256 && s1 < 256 && s2 < 256 && s3 < 256 && s4 < 256 && s5 < 256 && s6
            < 256 && s7 < 256) ==> s0 == ((x >> 56) & 0xff) && s1 == ((x >> 48) & 0xff) && s2 == ((x
            >> 40) & 0xff) && s3 == ((x >> 32) & 0xff) && s4 == ((x >> 24) & 0xff) && s5 == ((x
            >> 16) & 0xff) && s6 == ((x >> 8) & 0xff) && s7 == (x & 0xff)) by (bit_vector);
        assert(spec_u64_to_be(spec_u64_from_be(s)) =~= s);
    }
}

/// Appends the two big-endian bytes of `x` to `out`.
pub fn push_u16_be(out: &mut Vec<u8>, x: u16)
    ensures
        final(out)@ == old(out)@ + spec_u16_to_be(x),
{
    proof {
        assert((x >> 8) & 0xff < 256 && x & 0xff < 256) by (bit_vector);
    }
    out.push(((x >> 8) & 0xff) as u8);
    out.push((x & 0xff) as u8);
    assert(final(out)@ =~= old(out)@ + spec_u16_to_be(x));
}

/// Appends the four big-endian bytes of `x` to `out`.
pub fn push_u32_be(out: &mut Vec<u8>, x: u32)
    ensures
        final(out)@ == old(out)@ + spec_u32_to_be(x),
{
    proof {
        assert((x >> 24) & 0xff < 256 && (x >> 16) & 0xff < 256 && (x >> 8) & 0xff < 256 && x & 0xff
            < 256) by (bit_vector);
    }
    out.push(((x >> 24) & 0xff) as u8);
    out.push(((x >> 16) & 0xff) as u8);
    out.push(((x >> 8) & 0xff) as u8);
    out.push((x & 0xff) as u8);
    assert(final(out)@ =~= old(out)@ + spec_u32_to_be(x));
}

/// Appends the eight big-endian bytes of `x` to `out`.
pub fn push_u64_be(out: &mut Vec<u8>, x: u64)
    ensures
        final(out)@ == old(out)@ + spec_u64_to_be(x),
{
    proof {
        assert((x >> 56) & 0xff < 256 && (x >> 48) & 0xff < 256 && (x >> 40) & 0xff < 256 && (x
            >> 32) & 0xff < 256 && (x >> 24) & 0xff < 256 && (x >> 16) & 0xff < 256 && (x >> 8)
            & 0xff < 256 && x & 0xff < 256) by (bit_vector);
    }
    out.push(((x >> 56) & 0xff) as u8);
    out.push(((x >> 48) & 0xff) as u8);
    out.push(((x >> 40) & 0xff) as u8);
    out.push(((x >> 32) & 0xff) as u8);
    out.push(((x >> 24) & 0xff) as u8);
    out.push(((x >> 16) & 0xff) as u8);
    out.push(((x >> 8) & 0xff) as u8);
    out.push((x & 0xff) as u8);
    assert(final(out)@ =~= old(out)@ + spec_u64_to_be(x));
}

/// Reads the big-endian `u16` stored at offset `i` of `b`.
pub fn read_u16_be(b: &Vec<u8>, i: usize) -> (x: u16)
    requires
        i + 2 <= b@.len(),
    ensures
        x == spec_u16_from_be(b@.subrange(i as int, i + 2)),
{
    let n: usize = b.len();
    let x = (((b[i] as u16) << 8) as u16) | (b[i + 1] as u16);
    proof {
        let s = b@.subrange(i as int, i + 2);
        assert(s[0] == b@[i as int] && s[1] == b@[i + 1]);
    }
    x
}

/// Reads the big-endian `u32` stored at offset `i` of `b`.
pub fn read_u32_be(b: &Vec<u8>, i: usize) -> (x: u32)
    requires
        i + 4 <= b@.len(),
    ensures
        x == spec_u32_from_be(b@.subrange(i as int, i + 4)),
{
    let n: usize = b.len();
    let x = (((b[i] as u32) << 24) as u32) | (((b[i + 1] as u32) << 16) as u32) | (((b[i
        + 2] as u32) << 8) as u32) | (b[i + 3] as u32);
    proof {
        let s = b@.subrange(i as int, i + 4);
        assert(s[0] == b@[i as int] && s[1] == b@[i + 1] && s[2] == b@[i + 2] && s[3] == b@[i + 3]);
    }
    x
}

/// Reads the big-endian `u64` stored at offset `i` of `b`.
pub fn read_u64_be(b: &Vec<u8>, i: usize) -> (x: u64)
    requires
        i + 8 <= b@.len(),
    ensures
        x == spec_u64_from_be(b@.subrange(i as int, i + 8)),
{
    let n: usize = b.len();
    let x = (((b[i] as u64) << 56) as u64) | (((b[i + 1] as u64) << 48) as u64) | (((b[i
        + 2] as u64) << 40) as u64) | (((b[i + 3] as u64) << 32) as u64) | (((b[i + 4] as u64)
        << 24) as u64) | (((b[i + 5] as u64) << 16) as u64) | (((b[i + 6] as u64) << 8) as u64) | (
    b[i + 7] as u64);
    proof {
        let s = b@.subrange(i as int, i + 8);
        assert(s[0] == b@[i as int] && s[1] == b@[i + 1] && s[2] == b@[i + 2] && s[3] == b@[i + 3]
            && s[4] == b@[i + 4] && s[5] == b@[i + 5] && s[6] == b@[i + 6] && s[7] == b@[i + 7]);
    }
    x
}

} // verus!
