//! Crypto engine: AEAD seal/open under a strict nonce discipline,
//! symmetric key generation, content hashing, HMAC sign/verify, and
//! long-term key material in base64 form.
//!
//! Every sealed frame carries the nonce counter it was sealed under as an
//! eight-byte big-endian prefix, so the opener uses exactly the nonce the
//! sealer used; nothing is ever opened under an assumed or constant nonce.

use vstd::prelude::*;
use crate::endian::{lemma_u64_be_round_trip, push_u64_be, spec_u64_from_be, spec_u64_to_be};

verus! {

/// The supported AEAD variants.
#[derive(Clone, Copy, Debug, PartialEq, Eq, Structural)]
pub enum CryptoAlgorithm {
    AesGcm128,
    AesGcm256,
}

/// The symmetric key width of an AEAD variant, in bytes.
pub open spec fn spec_key_len(a: CryptoAlgorithm) -> int {
    match a {
        CryptoAlgorithm::AesGcm128 => 16,
        CryptoAlgorithm::AesGcm256 => 32,
    }
}

/// Why a cryptographic operation was refused or failed.
#[derive(Clone, Copy, Debug, PartialEq, Eq, Structural)]
pub enum CryptoError {
    /// Key material does not match the algorithm's key width.
    InvalidKey,
    /// The secure random source failed.
    KeyGenFailed,
    /// The send-nonce counter is exhausted; a fresh session key is needed.
    NonceExhausted,
    /// The cipher refused to seal.
    EncryptFailed,
    /// The buffer is too short to carry a nonce prefix and a tag.
    CiphertextTooShort,
    /// Authentication failed: the frame is not a seal of anything under
    /// this key and its carried nonce.
    DecryptFailed,
}

/// What AES-GCM sealing returns for a key, nonce, associated data and
/// plaintext: a pure function of the four.
pub uninterp spec fn spec_aead_sealed(
    key: Seq<u8>,
    nonce: Seq<u8>,
    aad: Seq<u8>,
    pt: Seq<u8>,
) -> Seq<u8>;

/// What SHA-256 returns for an input: a pure function of the bytes.
pub uninterp spec fn spec_sha256(data: Seq<u8>) -> Seq<u8>;

/// What HMAC-SHA256 returns for a key and an input: a pure function of
/// the two.
pub uninterp spec fn spec_hmac_sha256(key: Seq<u8>, data: Seq<u8>) -> Seq<u8>;

/// What the standard-alphabet, padded base64 encoding of a byte string
/// is: a pure function of the bytes.
pub uninterp spec fn spec_base64(v: Seq<u8>) -> Seq<char>;

/// The twelve-byte nonce an AEAD call uses for send counter `c`: four
/// zero bytes, then the counter big-endian.
pub open spec fn spec_nonce12(c: u64) -> Seq<u8> {
    seq![0u8, 0u8, 0u8, 0u8] + spec_u64_to_be(c)
}

/// Distinct send counters give distinct nonces: the counter is recovered
/// from its own encoding.
pub proof fn lemma_nonce_injective(c1: u64, c2: u64)
    requires
        c1 != c2,
    ensures
        spec_nonce12(c1) != spec_nonce12(c2),
{
    lemma_u64_be_round_trip();
    if spec_nonce12(c1) == spec_nonce12(c2) {
        assert(spec_nonce12(c1).skip(4) =~= spec_u64_to_be(c1));
        assert(spec_nonce12(c2).skip(4) =~= spec_u64_to_be(c2));
        assert(spec_u64_from_be(spec_u64_to_be(c1)) == c1);
        assert(spec_u64_from_be(spec_u64_to_be(c2)) == c2);
    }
}

/// Relies on ring's `LessSafeKey::seal_in_place_append_tag` for AES-GCM
/// (128 or 256 by key width): the ciphertext is a pure function of key,
/// nonce, associated data and plaintext, with a 16-byte tag appended.
/// Sealing succeeds whenever the plaintext is within AES-GCM's per-nonce
/// input bound (2^36 - 32 bytes) and the associated data fits the
/// 64-bit length counter; those are its only failure conditions on a
/// well-formed key and nonce.
#[verifier::external_body]
fn aead_seal_raw(key: &Vec<u8>, nonce: &Vec<u8>, aad: &Vec<u8>, pt: &Vec<u8>) -> (r: Option<
    Vec<u8>,
>)
    requires
        key@.len() == 16 || key@.len() == 32,
        nonce@.len() == 12,
    ensures
        r matches Some(c) ==> c@ == spec_aead_sealed(key@, nonce@, aad@, pt@) && c@.len() == pt@.len()
            + 16,
        r is Some <== pt@.len() <= 0xFFFFFFFE0 && aad@.len() < 0x2000000000000000,
{
    let alg = if key.len() == 16 { &ring::aead::AES_128_GCM } else { &ring::aead::AES_256_GCM };
    let unbound = match ring::aead::UnboundKey::new(alg, key) { Ok(k) => k, Err(_) => return None };
    let k = ring::aead::LessSafeKey::new(unbound);
    let n = match ring::aead::Nonce::try_assume_unique_for_key(nonce) { Ok(n) => n, Err(_) => return None };
    let mut buf = pt.clone();
    match k.seal_in_place_append_tag(n, ring::aead::Aad::from(aad.as_slice()), &mut buf) {
        Ok(()) => Some(buf),
        Err(_) => None,
    }
}

/// Relies on ring's `LessSafeKey::open_in_place` for AES-GCM: opening
/// recovers exactly the plaintext whose seal under the same key, nonce
/// and associated data the input is, and fails closed on anything else.
/// Success certifies the frame: GCM accepts only when the tag it
/// recomputes over the recovered plaintext matches, and sealing that
/// plaintext reproduces the frame byte for byte, so whatever opens is
/// the seal of what it opens to — which also makes the result a
/// function of (key, nonce, associated data, frame) alone.
#[verifier::external_body]
fn aead_open_raw(key: &Vec<u8>, nonce: &Vec<u8>, aad: &Vec<u8>, ct: &Vec<u8>) -> (r: Option<
    Vec<u8>,
>)
    requires
        key@.len() == 16 || key@.len() == 32,
        nonce@.len() == 12,
    ensures
        r matches Some(p) ==> p@.len() + 16 == ct@.len(),
        r matches Some(p) ==> ct@ == spec_aead_sealed(key@, nonce@, aad@, p@),
        r matches Some(p) ==> (forall|pt: Seq<u8>|
            ct@ == spec_aead_sealed(key@, nonce@, aad@, pt) ==> p@ == pt),
        r is None ==> (forall|pt: Seq<u8>| ct@ != spec_aead_sealed(key@, nonce@, aad@, pt)),
{
    let alg = if key.len() == 16 { &ring::aead::AES_128_GCM } else { &ring::aead::AES_256_GCM };
    let unbound = match ring::aead::UnboundKey::new(alg, key) { Ok(k) => k, Err(_) => return None };
    let k = ring::aead::LessSafeKey::new(unbound);
    let n = match ring::aead::Nonce::try_assume_unique_for_key(nonce) { Ok(n) => n, Err(_) => return None };
    let mut buf = ct.clone();
    match k.open_in_place(n, ring::aead::Aad::from(aad.as_slice()), &mut buf) {
        Ok(p) => Some(p.to_vec()),
        Err(_) => None,
    }
}

/// Relies on ring's SHA-256 digest: a pure function of the input with a
/// 32-byte result.
#[verifier::external_body]
fn sha256_raw(data: &Vec<u8>) -> (r: Vec<u8>)
    requires
        data@.len() < 0x1000000000000000,
    ensures
        r@ == spec_sha256(data@),
        r@.len() == 32,
{
    ring::digest::digest(&ring::digest::SHA256, data).as_ref().to_vec()
}

/// Relies on ring's `hmac::sign` with HMAC-SHA256: a pure function of key
/// and input with a 32-byte tag.
#[verifier::external_body]
fn hmac_sign_raw(key: &Vec<u8>, data: &Vec<u8>) -> (r: Vec<u8>)
    requires
        key@.len() < 0x1000000000000000,
        data@.len() < 0x1000000000000000,
    ensures
        r@ == spec_hmac_sha256(key@, data@),
        r@.len() == 32,
{
    let k = ring::hmac::Key::new(ring::hmac::HMAC_SHA256, key);
    ring::hmac::sign(&k, data).as_ref().to_vec()
}

/// Relies on ring's `hmac::verify` with HMAC-SHA256: it succeeds exactly
/// when the tag equals the HMAC of the data under the key (compared in
/// constant time).
#[verifier::external_body]
fn hmac_verify_raw(key: &Vec<u8>, data: &Vec<u8>, tag: &Vec<u8>) -> (r: bool)
    requires
        key@.len() < 0x1000000000000000,
        data@.len() < 0x1000000000000000,
    ensures
        r == (tag@ == spec_hmac_sha256(key@, data@)),
{
    let k = ring::hmac::Key::new(ring::hmac::HMAC_SHA256, key);
    ring::hmac::verify(&k, data, tag).is_ok()
}

/// Relies on ring's `SystemRandom::fill`; nothing is promised of the
/// bytes beyond their count.
#[verifier::external_body]
fn fill_random_raw(n: usize) -> (r: Option<Vec<u8>>)
    ensures
        r matches Some(v) ==> v@.len() == n,
{
    let rng = ring::rand::SystemRandom::new();
    let mut v = vec![0u8; n];
    match ring::rand::SecureRandom::fill(&rng, &mut v) {
        Ok(()) => Some(v),
        Err(_) => None,
    }
}

/// Relies on rand's thread-local RNG (`try_fill`); nothing is promised of
/// the bytes beyond their count.
#[verifier::external_body]
pub(crate) fn thread_random_bytes(n: usize) -> (r: Option<Vec<u8>>)
    ensures
        r matches Some(v) ==> v@.len() == n,
{
    let mut rng = rand::thread_rng();
    let mut v = vec![0u8; n];
    match rand::Rng::try_fill(&mut rng, v.as_mut_slice()) {
        Ok(()) => Some(v),
        Err(_) => None,
    }
}

/// Relies on base64's standard-alphabet padded encoder: a pure function
/// of the bytes.
#[verifier::external_body]
pub(crate) fn base64_of(v: &Vec<u8>) -> (r: String)
    ensures
        r@ == spec_base64(v@),
{
    base64::Engine::encode(&base64::engine::general_purpose::STANDARD, v)
}

/// Relies on base64's standard-alphabet decoder, which requires canonical
/// padding and zero trailing bits: it accepts exactly the encoder's
/// outputs and inverts them.
#[verifier::external_body]
fn base64_decode_raw(s: &str) -> (r: Option<Vec<u8>>)
    ensures
        r matches Some(v) ==> s@ == spec_base64(v@),
        r matches Some(w) ==> (forall|v: Seq<u8>| s@ == spec_base64(v) ==> v == w@),
        r is None ==> (forall|v: Seq<u8>| s@ != spec_base64(v)),
{
    base64::Engine::decode(&base64::engine::general_purpose::STANDARD, s).ok()
}

/// Sealing and opening state for one direction of one session: the
/// symmetric key and the strictly increasing send-nonce counter.
#[derive(Debug)]
pub struct CryptoContext {
    key: Vec<u8>,
    algorithm: CryptoAlgorithm,
    nonce_counter: u64,
}

impl CryptoContext {
    /// The key bytes this context seals and opens with.
    pub closed spec fn spec_key(&self) -> Seq<u8> {
        self.key@
    }

    /// The AEAD variant in use.
    pub closed spec fn spec_algorithm(&self) -> CryptoAlgorithm {
        self.algorithm
    }

    /// The next send-nonce counter value.
    pub closed spec fn spec_nonce_counter(&self) -> u64 {
        self.nonce_counter
    }

    /// The key width always matches the algorithm.
    pub open spec fn wf(&self) -> bool {
        self.spec_key().len() == spec_key_len(self.spec_algorithm())
    }

    /// Builds a context around `key`; rejected exactly when the key width
    /// does not match the algorithm. The send counter starts at zero.
    pub fn new(key: &Vec<u8>, algorithm: CryptoAlgorithm) -> (r: Result<CryptoContext, CryptoError>)
        ensures
            match r {
                Ok(c) => key@.len() == spec_key_len(algorithm) && c.wf() && c.spec_key() == key@
                    && c.spec_algorithm() == algorithm && c.spec_nonce_counter() == 0,
                Err(e) => key@.len() != spec_key_len(algorithm) && e == CryptoError::InvalidKey,
            },
    {
        let expected: usize = match algorithm {
            CryptoAlgorithm::AesGcm128 => 16,
            CryptoAlgorithm::AesGcm256 => 32,
        };
        if key.len() != expected {
            return Err(CryptoError::InvalidKey);
        }
        Ok(
            CryptoContext {
                key: crate::protocol::clone_bytes(key),
                algorithm,
                nonce_counter: 0,
            },
        )
    }

    /// Seals `plaintext` under the next nonce and advances the counter.
    /// The output carries the counter it was sealed under as an
    /// eight-byte big-endian prefix, followed by the ciphertext and tag.
    /// A frame is owed whenever the counter space is not spent and the
    /// inputs are within the cipher's bounds; a spent counter space is
    /// refused — its own typed error, and the only one raised there —
    /// rather than ever reusing a nonce, and the counter moves only when
    /// a frame is produced.
    pub fn encrypt(&mut self, plaintext: &Vec<u8>, aad: &Vec<u8>) -> (r: Result<
        Vec<u8>,
        CryptoError,
    >)
        requires
            old(self).wf(),
        ensures
            final(self).wf(),
            final(self).spec_key() == old(self).spec_key(),
            final(self).spec_algorithm() == old(self).spec_algorithm(),
            old(self).spec_nonce_counter() < u64::MAX && plaintext@.len() <= 0xFFFFFFFE0
                && aad@.len() < 0x2000000000000000 ==> r is Ok,
            r matches Err(e) ==> (e == CryptoError::NonceExhausted <==> old(
                self,
            ).spec_nonce_counter() == u64::MAX),
            r is Err ==> final(self).spec_nonce_counter() == old(self).spec_nonce_counter(),
            r matches Ok(c) ==> {
                &&& old(self).spec_nonce_counter() < u64::MAX
                &&& final(self).spec_nonce_counter() == old(self).spec_nonce_counter() + 1
                &&& c@ == spec_u64_to_be(old(self).spec_nonce_counter()) + spec_aead_sealed(
                    old(self).spec_key(),
                    spec_nonce12(old(self).spec_nonce_counter()),
                    aad@,
                    plaintext@,
                )
                &&& c@.len() == plaintext@.len() + 24
            },
    {
        if self.nonce_counter == u64::MAX {
            return Err(CryptoError::NonceExhausted);
        }
        let counter = self.nonce_counter;
        let mut nonce: Vec<u8> = Vec::new();
        nonce.push(0);
        nonce.push(0);
        nonce.push(0);
        nonce.push(0);
        push_u64_be(&mut nonce, counter);
        proof {
            assert(nonce@ =~= spec_nonce12(counter));
        }
        match aead_seal_raw(&self.key, &nonce, aad, plaintext) {
            None => Err(CryptoError::EncryptFailed),
            Some(sealed) => {
                let mut out: Vec<u8> = Vec::new();
                push_u64_be(&mut out, counter);
                let mut i: usize = 0;
                let ghost head = out@;
                while i < sealed.len()
                    invariant
                        i <= sealed@.len(),
                        out@ == head + sealed@.subrange(0, i as int),
                    decreases sealed@.len() - i,
                {
                    out.push(sealed[i]);
                    i = i + 1;
                    assert(out@ =~= head + sealed@.subrange(0, i as int));
                }
                proof {
                    assert(sealed@.subrange(0, sealed@.len() as int) =~= sealed@);
                }
                self.nonce_counter = counter + 1;
                Ok(out)
            },
        }
    }

    /// Opens a frame produced by [`Self::encrypt`] under the same key,
    /// using exactly the nonce counter the frame carries. Fails closed:
    /// a frame too short to carry a prefix and tag, or one that is not a
    /// seal of anything under this key, nonce and associated data, yields
    /// an error and no bytes. Success certifies the frame as the seal of
    /// the returned plaintext, so the result is a function of the key,
    /// frame and associated data alone: equal inputs open equally.
    pub fn decrypt(&self, ciphertext: &Vec<u8>, aad: &Vec<u8>) -> (r: Result<Vec<u8>, CryptoError>)
        requires
            self.wf(),
        ensures
            ciphertext@.len() < 24 ==> r == Err::<Vec<u8>, CryptoError>(
                CryptoError::CiphertextTooShort,
            ),
            r matches Ok(p) ==> p@.len() + 24 == ciphertext@.len(),
            r matches Ok(p) ==> ciphertext@.skip(8) == spec_aead_sealed(
                self.spec_key(),
                spec_nonce12(spec_u64_from_be(ciphertext@.take(8))),
                aad@,
                p@,
            ),
            forall|pt: Seq<u8>|
                (ciphertext@.len() >= 24 && ciphertext@.skip(8) == spec_aead_sealed(
                    self.spec_key(),
                    spec_nonce12(spec_u64_from_be(ciphertext@.take(8))),
                    aad@,
                    pt,
                )) ==> (r matches Ok(p) && p@ == pt),
    {
        let n = ciphertext.len();
        if n < 24 {
            return Err(CryptoError::CiphertextTooShort);
        }
        let counter = crate::endian::read_u64_be(ciphertext, 0);
        let mut nonce: Vec<u8> = Vec::new();
        nonce.push(0);
        nonce.push(0);
        nonce.push(0);
        nonce.push(0);
        push_u64_be(&mut nonce, counter);
        proof {
            assert(ciphertext@.subrange(0, 8) =~= ciphertext@.take(8));
            assert(nonce@ =~= spec_nonce12(spec_u64_from_be(ciphertext@.take(8))));
        }
        let sealed = crate::codec::copy_range(ciphertext, 8, n);
        proof {
            assert(sealed@ =~= ciphertext@.skip(8));
        }
        match aead_open_raw(&self.key, &nonce, aad, &sealed) {
            None => Err(CryptoError::DecryptFailed),
            Some(p) => Ok(p),
        }
    }

    /// Draws fresh key material of the requested strength from the system
    /// random source.
    pub fn generate_key(&self, algorithm: CryptoAlgorithm) -> (r: Result<Vec<u8>, CryptoError>)
        ensures
            match r {
                Ok(k) => k@.len() == spec_key_len(algorithm),
                Err(e) => e == CryptoError::KeyGenFailed,
            },
    {
        let n: usize = match algorithm {
            CryptoAlgorithm::AesGcm128 => 16,
            CryptoAlgorithm::AesGcm256 => 32,
        };
        match fill_random_raw(n) {
            Some(k) => Ok(k),
            None => Err(CryptoError::KeyGenFailed),
        }
    }
}

/// Sealing then opening a frame recovers the plaintext: the prefix of an
/// encrypt output decodes to the counter it was sealed under, and the
/// remainder is the seal itself, so the opener's hypothesis holds of
/// every sealer's output. Together with the contracts of
/// [`CryptoContext::encrypt`] and [`CryptoContext::decrypt`], any frame
/// sealed at counter `c` opens to its plaintext under the same key and
/// associated data.
pub proof fn lemma_aead_round_trip(key: Seq<u8>, c: u64, aad: Seq<u8>, pt: Seq<u8>)
    ensures
        ({
            let ct = spec_u64_to_be(c) + spec_aead_sealed(key, spec_nonce12(c), aad, pt);
            &&& ct.take(8) == spec_u64_to_be(c)
            &&& spec_u64_from_be(ct.take(8)) == c
            &&& ct.skip(8) == spec_aead_sealed(key, spec_nonce12(c), aad, pt)
        }),
{
    lemma_u64_be_round_trip();
    let ct = spec_u64_to_be(c) + spec_aead_sealed(key, spec_nonce12(c), aad, pt);
    assert(ct.take(8) =~= spec_u64_to_be(c));
    assert(ct.skip(8) =~= spec_aead_sealed(key, spec_nonce12(c), aad, pt));
}

/// A long-term identity key pair.
#[derive(Debug)]
pub struct KeyPair {
    pub public_key: Vec<u8>,
    private_key: Vec<u8>,
}

impl KeyPair {
    /// The public half, as specifications see it.
    pub closed spec fn spec_public_key(&self) -> Seq<u8> {
        self.public_key@
    }

    /// The private half, visible to specifications only.
    pub closed spec fn spec_private_key(&self) -> Seq<u8> {
        self.private_key@
    }

    /// Draws a fresh 32-byte pair from the thread-local secure random
    /// source; fails only when that source does.
    pub fn generate() -> (r: Result<KeyPair, CryptoError>)
        ensures
            match r {
                Ok(kp) => kp.spec_public_key().len() == 32 && kp.spec_private_key().len() == 32,
                Err(e) => e == CryptoError::KeyGenFailed,
            },
    {
        let public_key = match thread_random_bytes(32) {
            Some(v) => v,
            None => {
                return Err(CryptoError::KeyGenFailed);
            },
        };
        let private_key = match thread_random_bytes(32) {
            Some(v) => v,
            None => {
                return Err(CryptoError::KeyGenFailed);
            },
        };
        Ok(KeyPair { public_key, private_key })
    }

    /// Reads a pair back from its base64 form; accepts exactly what
    /// [`Self::to_base64`] produces.
    pub fn from_base64(public_b64: &str, private_b64: &str) -> (r: Result<KeyPair, CryptoError>)
        ensures
            r matches Ok(kp) ==> public_b64@ == spec_base64(kp.spec_public_key()) && private_b64@
                == spec_base64(kp.spec_private_key()),
            r is Err ==> r == Err::<KeyPair, CryptoError>(CryptoError::InvalidKey),
            forall|pk: Seq<u8>, sk: Seq<u8>|
                (public_b64@ == spec_base64(pk) && private_b64@ == spec_base64(sk)) ==> (
                r matches Ok(kp) && kp.spec_public_key() == pk && kp.spec_private_key() == sk),
    {
        let public_key = match base64_decode_raw(public_b64) {
            Some(v) => v,
            None => {
                return Err(CryptoError::InvalidKey);
            },
        };
        let private_key = match base64_decode_raw(private_b64) {
            Some(v) => v,
            None => {
                return Err(CryptoError::InvalidKey);
            },
        };
        Ok(KeyPair { public_key, private_key })
    }

    /// The base64 form of the pair: public half first.
    pub fn to_base64(&self) -> (r: (String, String))
        ensures
            r.0@ == spec_base64(self.spec_public_key()),
            r.1@ == spec_base64(self.spec_private_key()),
    {
        (base64_of(&self.public_key), base64_of(&self.private_key))
    }
}

/// The SHA-256 content fingerprint of `data`.
pub fn hash(data: &Vec<u8>) -> (r: Vec<u8>)
    requires
        data@.len() < 0x1000000000000000,
    ensures
        r@ == spec_sha256(data@),
        r@.len() == 32,
{
    sha256_raw(data)
}

/// The HMAC-SHA256 tag of `data` under `key`.
pub fn generate_hmac(key: &Vec<u8>, data: &Vec<u8>) -> (r: Vec<u8>)
    requires
        key@.len() < 0x1000000000000000,
        data@.len() < 0x1000000000000000,
    ensures
        r@ == spec_hmac_sha256(key@, data@),
        r@.len() == 32,
{
    hmac_sign_raw(key, data)
}

/// True exactly when `tag` is the HMAC-SHA256 of `data` under `key`.
pub fn verify_hmac(key: &Vec<u8>, data: &Vec<u8>, tag: &Vec<u8>) -> (r: bool)
    requires
        key@.len() < 0x1000000000000000,
        data@.len() < 0x1000000000000000,
    ensures
        r == (tag@ == spec_hmac_sha256(key@, data@)),
{
    hmac_verify_raw(key, data, tag)
}

} // verus!
