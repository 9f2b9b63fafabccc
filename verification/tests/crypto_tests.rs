use vpnet::crypto::{
    generate_hmac, hash, verify_hmac, CryptoAlgorithm, CryptoContext, CryptoError, KeyPair,
};

fn context_256() -> CryptoContext {
    let key: Vec<u8> = (0u8..32).collect();
    CryptoContext::new(&key, CryptoAlgorithm::AesGcm256).unwrap()
}

#[test]
fn new_rejects_wrong_key_width() {
    let short = vec![0u8; 16];
    assert_eq!(
        CryptoContext::new(&short, CryptoAlgorithm::AesGcm256).unwrap_err(),
        CryptoError::InvalidKey
    );
    assert!(CryptoContext::new(&short, CryptoAlgorithm::AesGcm128).is_ok());
    let long = vec![0u8; 32];
    assert_eq!(
        CryptoContext::new(&long, CryptoAlgorithm::AesGcm128).unwrap_err(),
        CryptoError::InvalidKey
    );
}

#[test]
fn aead_round_trip() {
    let mut ctx = context_256();
    let plaintext = b"the quick brown fox".to_vec();
    let aad = b"header".to_vec();
    let sealed = ctx.encrypt(&plaintext, &aad).unwrap();
    assert_eq!(sealed.len(), plaintext.len() + 24);
    let opened = ctx.decrypt(&sealed, &aad).unwrap();
    assert_eq!(opened, plaintext);
}

#[test]
fn aead_round_trip_128() {
    let key: Vec<u8> = (0u8..16).collect();
    let mut ctx = CryptoContext::new(&key, CryptoAlgorithm::AesGcm128).unwrap();
    let plaintext = vec![7u8; 100];
    let aad = vec![];
    let sealed = ctx.encrypt(&plaintext, &aad).unwrap();
    assert_eq!(ctx.decrypt(&sealed, &aad).unwrap(), plaintext);
}

#[test]
fn aead_rejects_any_tampered_byte() {
    let mut ctx = context_256();
    let plaintext = b"payload".to_vec();
    let aad = b"ad".to_vec();
    let sealed = ctx.encrypt(&plaintext, &aad).unwrap();
    for i in 0..sealed.len() {
        let mut bad = sealed.clone();
        bad[i] ^= 0x01;
        assert!(
            ctx.decrypt(&bad, &aad).is_err(),
            "tampering byte {} went unnoticed",
            i
        );
    }
}

#[test]
fn aead_rejects_truncated_and_foreign_input() {
    let mut ctx = context_256();
    let sealed = ctx.encrypt(&b"data".to_vec(), &vec![]).unwrap();
    assert_eq!(
        ctx.decrypt(&sealed[..23].to_vec(), &vec![]).unwrap_err(),
        CryptoError::CiphertextTooShort
    );
    // wrong associated data
    assert!(ctx.decrypt(&sealed, &b"other".to_vec()).is_err());
    // wrong key
    let other_key: Vec<u8> = (100u8..132).collect();
    let other = CryptoContext::new(&other_key, CryptoAlgorithm::AesGcm256).unwrap();
    assert_eq!(other.decrypt(&sealed, &vec![]).unwrap_err(), CryptoError::DecryptFailed);
}

#[test]
fn sequential_seals_use_distinct_nonces() {
    let mut ctx = context_256();
    let plaintext = b"same plaintext".to_vec();
    let aad = vec![];
    let first = ctx.encrypt(&plaintext, &aad).unwrap();
    let second = ctx.encrypt(&plaintext, &aad).unwrap();
    // the carried nonce counters differ...
    assert_ne!(&first[..8], &second[..8]);
    assert_eq!(&first[..8], &[0, 0, 0, 0, 0, 0, 0, 0]);
    assert_eq!(&second[..8], &[0, 0, 0, 0, 0, 0, 0, 1]);
    // ...and so do the ciphertexts, even for one plaintext.
    assert_ne!(first[8..], second[8..]);
    // each opens under the nonce it carries
    assert_eq!(ctx.decrypt(&first, &aad).unwrap(), plaintext);
    assert_eq!(ctx.decrypt(&second, &aad).unwrap(), plaintext);
}

#[test]
fn generate_key_sizes() {
    let ctx = context_256();
    assert_eq!(ctx.generate_key(CryptoAlgorithm::AesGcm128).unwrap().len(), 16);
    assert_eq!(ctx.generate_key(CryptoAlgorithm::AesGcm256).unwrap().len(), 32);
}

#[test]
fn hash_is_sha256() {
    let digest = hash(&vec![]);
    let expected: [u8; 32] = [
        0xe3, 0xb0, 0xc4, 0x42, 0x98, 0xfc, 0x1c, 0x14, 0x9a, 0xfb, 0xf4, 0xc8, 0x99, 0x6f,
        0xb9, 0x24, 0x27, 0xae, 0x41, 0xe4, 0x64, 0x9b, 0x93, 0x4c, 0xa4, 0x95, 0x99, 0x1b,
        0x78, 0x52, 0xb8, 0x55,
    ];
    assert_eq!(digest, expected.to_vec());
    let abc = hash(&b"abc".to_vec());
    assert_eq!(
        abc[..4],
        [0xba, 0x78, 0x16, 0xbf],
        "SHA-256 of \"abc\" starts with ba7816bf"
    );
}

#[test]
fn hmac_round_trip_and_rejection() {
    let key = b"secret key".to_vec();
    let data = b"control-plane payload".to_vec();
    let tag = generate_hmac(&key, &data);
    assert_eq!(tag.len(), 32);
    assert!(verify_hmac(&key, &data, &tag));
    let mut bad_tag = tag.clone();
    bad_tag[0] ^= 1;
    assert!(!verify_hmac(&key, &data, &bad_tag));
    assert!(!verify_hmac(&b"other key".to_vec(), &data, &tag));
    assert!(!verify_hmac(&key, &b"other data".to_vec(), &tag));
}

#[test]
fn keypair_generation_and_base64_round_trip() {
    let kp = KeyPair::generate().unwrap();
    assert_eq!(kp.public_key.len(), 32);
    let (pub_b64, priv_b64) = kp.to_base64();
    let back = KeyPair::from_base64(&pub_b64, &priv_b64).unwrap();
    assert_eq!(back.public_key, kp.public_key);
    let (pub2, priv2) = back.to_base64();
    assert_eq!(pub2, pub_b64);
    assert_eq!(priv2, priv_b64);
}

#[test]
fn keypair_from_base64_known_value() {
    let kp = KeyPair::from_base64("AAAA", "/////w==").unwrap();
    assert_eq!(kp.public_key, vec![0, 0, 0]);
    let (p, s) = kp.to_base64();
    assert_eq!(p, "AAAA");
    assert_eq!(s, "/////w==");
}

#[test]
fn keypair_from_base64_rejects_garbage() {
    assert_eq!(
        KeyPair::from_base64("not base64!", "AAAA").unwrap_err(),
        CryptoError::InvalidKey
    );
    assert_eq!(
        KeyPair::from_base64("AAAA", "AAA").unwrap_err(),
        CryptoError::InvalidKey
    );
}

#[test]
fn decrypt_is_deterministic() {
    let mut ctx = context_256();
    let aad = b"ad".to_vec();
    let sealed = ctx.encrypt(&b"payload".to_vec(), &aad).unwrap();
    // equal inputs open equally, on genuine frames...
    assert_eq!(ctx.decrypt(&sealed, &aad).unwrap(), ctx.decrypt(&sealed, &aad).unwrap());
    // ...and on frames that seal nothing
    let garbage = vec![0xA5u8; 40];
    let first = ctx.decrypt(&garbage, &aad);
    let second = ctx.decrypt(&garbage, &aad);
    assert!(first.is_err() && second.is_err());
    assert_eq!(first.unwrap_err(), second.unwrap_err());
}

#[test]
fn encrypt_owes_a_frame_for_ordinary_input() {
    let mut ctx = context_256();
    assert!(ctx.encrypt(&vec![], &vec![]).is_ok());
    assert!(ctx.encrypt(&vec![0u8; 16384], &vec![1, 2, 3]).is_ok());
}
