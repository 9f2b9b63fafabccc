//! Lowercase hexadecimal rendering of integers, as identifiers use it:
//! no leading zeros, a single `0` for zero.

use vstd::prelude::*;
use vstd::pervasive::unreached;
use vstd::utf8::{decode_utf8, encode_utf8};
use crate::messages::string_from_utf8;

verus! {

/// The character for one hex digit value.
pub open spec fn spec_hex_digit(d: int) -> char
    recommends
        0 <= d < 16,
{
    if d < 10 {
        ((48 + d) as u8) as char
    } else {
        ((87 + d) as u8) as char
    }
}

/// The digits of `n` in base 16, most significant first; empty for zero.
pub open spec fn spec_hex_rec(n: nat) -> Seq<char>
    decreases n,
{
    if n == 0 {
        Seq::empty()
    } else {
        spec_hex_rec(n / 16).push(spec_hex_digit((n % 16) as int))
    }
}

/// The lowercase hex rendering of `n`.
pub open spec fn spec_hex_chars(n: u64) -> Seq<char> {
    if n == 0 {
        seq!['0']
    } else {
        spec_hex_rec(n as nat)
    }
}

/// The ASCII bytes of a character sequence that is known to be ASCII.
pub open spec fn spec_ascii_bytes(s: Seq<char>) -> Seq<u8> {
    Seq::new(s.len(), |i: int| s[i] as u8)
}

proof fn lemma_hex_rec_ascii(n: nat)
    ensures
        vstd::utf8::is_ascii_chars(spec_hex_rec(n)),
    decreases n,
{
    if n != 0 {
        lemma_hex_rec_ascii(n / 16);
        let s = spec_hex_rec(n);
        let d = (n % 16) as int;
        assert(0 <= d < 16);
        assert('\0' <= spec_hex_digit(d) <= '\u{7f}');
        assert(forall|i: int| 0 <= i < s.len() - 1 ==> s[i] == spec_hex_rec(n / 16)[i]);
        assert forall|i: int| 0 <= i < s.len() implies '\0' <= #[trigger] s[i] <= '\u{7f}' by {
            if i < s.len() - 1 {
                assert('\0' <= spec_hex_rec(n / 16)[i] <= '\u{7f}');
            }
        }
    }
}

/// ASCII characters encode to their own byte values.
proof fn lemma_ascii_encode(s: Seq<char>)
    requires
        vstd::utf8::is_ascii_chars(s),
    ensures
        encode_utf8(s) == spec_ascii_bytes(s),
        decode_utf8(spec_ascii_bytes(s)) == s,
        vstd::utf8::valid_utf8(spec_ascii_bytes(s)),
{
    vstd::utf8::is_ascii_chars_encode_utf8(s);
    assert(encode_utf8(s) =~= spec_ascii_bytes(s));
    vstd::utf8::encode_utf8_decode_utf8(s);
    vstd::utf8::encode_utf8_valid_utf8(s);
}

fn push_hex_digits(n: u64, out: &mut Vec<u8>)
    ensures
        final(out)@ == old(out)@ + spec_ascii_bytes(spec_hex_rec(n as nat)),
    decreases n,
{
    if n == 0 {
        proof {
            assert(old(out)@ + spec_ascii_bytes(spec_hex_rec(0)) =~= old(out)@);
        }
        return ;
    }
    push_hex_digits(n / 16, out);
    let d = (n % 16) as u8;
    let b: u8 = if d < 10 {
        48 + d
    } else {
        87 + d
    };
    out.push(b);
    proof {
        assert(b == spec_hex_digit((n % 16) as int) as u8);
        assert(final(out)@ =~= old(out)@ + spec_ascii_bytes(spec_hex_rec(n as nat)));
    }
}

/// Renders `n` in lowercase hexadecimal.
pub fn hex_string(n: u64) -> (s: String)
    ensures
        s@ == spec_hex_chars(n),
{
    let mut bytes: Vec<u8> = Vec::new();
    if n == 0 {
        bytes.push(48);
        proof {
            assert(bytes@ =~= spec_ascii_bytes(seq!['0']));
        }
    } else {
        push_hex_digits(n, &mut bytes);
        proof {
            assert(bytes@ =~= spec_ascii_bytes(spec_hex_rec(n as nat)));
        }
    }
    proof {
        lemma_hex_rec_ascii(n as nat);
        if n == 0 {
            assert(vstd::utf8::is_ascii_chars(seq!['0'])) by {
                assert(seq!['0'][0] == '0');
            }
        }
        lemma_ascii_encode(spec_hex_chars(n));
        assert(spec_ascii_bytes(spec_hex_chars(n)) =~= bytes@);
    }
    match string_from_utf8(bytes) {
        Some(s) => s,
        None => unreached(),
    }
}

} // verus!
