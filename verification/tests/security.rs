//! Grants, proofs and seals.

use ohmcp::acl::ToolAcl;
use ohmcp::auth::{derive_session_key, hmac_response, verify_response, EphemeralKeyPair};
use ohmcp::crypto::{decrypt, encrypt, SessionCipher};
use ohmcp::error::SecurityError;
use ohmcp::hex::{hex, unhex, unhex32};

#[test]
fn grant_and_check() {
    let mut acl = ToolAcl::new();
    acl.grant("agent-a", "echo");
    assert!(acl.check("agent-a", "echo").is_ok());
    assert!(acl.check("agent-a", "rm").is_err());
    assert!(acl.check("agent-b", "echo").is_err());
}

#[test]
fn allow_all() {
    let mut acl = ToolAcl::new();
    acl.grant_all("root-agent");
    assert!(acl.check("root-agent", "anything").is_ok());
}

#[test]
fn valid_response_verifies() {
    let r = hmac_response(b"secret", b"nonce1");
    assert!(verify_response(b"secret", b"nonce1", &r));
}

#[test]
fn wrong_token_rejected() {
    let r = hmac_response(b"attacker", b"nonce1");
    assert!(!verify_response(b"secret", b"nonce1", &r));
}

#[test]
fn fs_key_agreement_matches_both_sides() {
    let a = EphemeralKeyPair::generate();
    let b = EphemeralKeyPair::generate();
    let a_pub = a.public_bytes();
    let b_pub = b.public_bytes();
    let ka = a.derive_fs_session_key(&b_pub, b"token", b"nonce");
    let kb = b.derive_fs_session_key(&a_pub, b"token", b"nonce");
    assert_eq!(ka, kb);
}

#[test]
fn fs_keys_differ_per_session() {
    let mk = || {
        let a = EphemeralKeyPair::generate();
        let b = EphemeralKeyPair::generate();
        let b_pub = b.public_bytes();
        a.derive_fs_session_key(&b_pub, b"token", b"nonce")
    };
    assert_ne!(mk(), mk(), "ephemeral keys must yield unique session keys");
}

#[test]
fn session_keys_differ_per_nonce() {
    assert_ne!(
        derive_session_key(b"secret", b"n1"),
        derive_session_key(b"secret", b"n2")
    );
}

#[test]
fn crypto_roundtrip() {
    let key = [7u8; 32];
    let ct = encrypt(&key, b"secret payload", b"aad");
    let pt = decrypt(&key, &ct, b"aad").unwrap();
    assert_eq!(&pt[..], b"secret payload");
}

#[test]
fn tampered_ciphertext_rejected() {
    let key = [7u8; 32];
    let mut ct = encrypt(&key, b"secret", b"aad").to_vec();
    let last = ct.len() - 1;
    ct[last] ^= 1;
    assert!(decrypt(&key, &ct, b"aad").is_err());
}

#[test]
fn wrong_aad_rejected() {
    let key = [7u8; 32];
    let ct = encrypt(&key, b"secret", b"aad-1");
    assert!(decrypt(&key, &ct, b"aad-2").is_err());
}

#[test]
fn wrong_key_rejected() {
    let ct = encrypt(&[1u8; 32], b"secret", b"");
    assert!(decrypt(&[2u8; 32], &ct, b"").is_err());
}

#[test]
fn refusals_name_the_tool() {
    let mut acl = ToolAcl::new();
    acl.grant("a", "x");
    acl.grant("b", "y");
    acl.grant("a", "z");
    acl.grant("a", "z");
    assert!(acl.check("a", "x").is_ok());
    assert!(acl.check("a", "z").is_ok());
    assert!(acl.check("b", "y").is_ok());
    match acl.check("b", "x") {
        Err(SecurityError::AccessDenied(t)) => assert_eq!(t, "x"),
        other => panic!("unexpected: {other:?}"),
    }
    acl.grant_all("b");
    assert!(acl.check("b", "x").is_ok());
    assert!(acl.check("c", "x").is_err());
}

#[test]
fn responses_are_hmac_sha256() {
    assert_eq!(
        hex(&hmac_response(b"Jefe", b"what do ya want for nothing?")),
        "5bdcc146bf60754e6a042426089575c75a003f089d2739839dec58b964ec3843"
    );
    assert!(!verify_response(b"Jefe", b"what do ya want for nothing?", b""));
    assert!(!verify_response(b"Jefe", b"what do ya want for nothing?", &[0u8; 32]));
}

#[test]
fn session_keys_have_their_own_label() {
    assert_eq!(
        hex(&derive_session_key(b"secret", b"n1")),
        "8da759efb22f107e083556fe7f57279af7697d2a08d5991708fe2815361d4855"
    );
}

#[test]
fn key_agreement_is_x25519() {
    let a = unhex32("0102030405060708090a0b0c0d0e0f101112131415161718191a1b1c1d1e1f20").unwrap();
    let b = unhex32("5dab087e624a8a4b79e17f8b83800ee66f3bb1292618b6fd1c2f8b27ff88e0eb").unwrap();
    let a = EphemeralKeyPair::from_secret(a);
    let b = EphemeralKeyPair::from_secret(b);
    let a_pub = a.public_bytes();
    let b_pub = b.public_bytes();
    assert_eq!(
        hex(&a_pub),
        "07a37cbc142093c8b755dc1b10e86cb426374ad16aa853ed0bdfc0b2b86d1c7c"
    );
    assert_eq!(
        hex(&b_pub),
        "de9edb7d7b7dc1b4d35b61c2ece435373f8343c85b78674dadfc7e146f882b4f"
    );
    let want = "91389f4b042f03a6338ab2cda1c342787ca5b99e67a5420f2fb7657e2395436e";
    assert_eq!(hex(&a.derive_fs_session_key(&b_pub, b"token", b"nonce")), want);
    assert_eq!(hex(&b.derive_fs_session_key(&a_pub, b"token", b"nonce")), want);
}

#[test]
fn seals_are_chacha20_poly1305() {
    let mut key = [0u8; 32];
    for (i, k) in key.iter_mut().enumerate() {
        *k = 0x80 + i as u8;
    }
    let message = unhex(concat_hex(&[
        "070000004041424344454647",
        "d31a8d34648e60db7b86afbc53ef7ec2a4aded51296e08fea9e2b5a736ee62d6",
        "3dbea45e8ca9671282fafb69da92728b1a71de0a9e060b2905d6a5b67ecd3b36",
        "92ddbd7f2d778b8c9803aee328091b58fab324e4fad675945585808b4831d7bc",
        "3ff4def08e4b7a9de576d26586cec64b6116",
        "1ae10b594f09e26a7e902ecbd0600691",
    ])
    .as_str())
    .unwrap();
    let aad = unhex("50515253c0c1c2c3c4c5c6c7").unwrap();
    let text = decrypt(&key, &message, &aad).unwrap();
    assert_eq!(
        &text[..],
        &b"Ladies and Gentlemen of the class of '99: If I could offer you only one tip \
           for the future, sunscreen would be it."[..]
    );
}

fn concat_hex(parts: &[&str]) -> String {
    let mut out = String::new();
    for p in parts {
        out.push_str(p);
    }
    out
}

#[test]
fn nonces_count_up_behind_one_prefix() {
    let mut c = SessionCipher::new(&[3u8; 32]);
    let first = c.encrypt(b"one", b"");
    let second = c.encrypt(b"one", b"");
    assert_eq!(first.len(), 3 + 28);
    assert_eq!(&first[..4], &second[..4]);
    assert_eq!(&first[4..12], &0u64.to_le_bytes());
    assert_eq!(&second[4..12], &1u64.to_le_bytes());
    assert_ne!(&first[12..], &second[12..]);
    assert_eq!(&c.decrypt(&first, b"").unwrap()[..], b"one");
    assert_eq!(&c.decrypt(&second, b"").unwrap()[..], b"one");
}

#[test]
fn short_messages_do_not_open() {
    let c = SessionCipher::new(&[3u8; 32]);
    for n in 0..28 {
        let e = c.decrypt(&vec![0u8; n], b"").unwrap_err();
        assert_eq!(e.to_string(), "decryption failed");
    }
    let mut d = SessionCipher::new(&[3u8; 32]);
    let empty = d.encrypt(b"", b"head");
    assert_eq!(empty.len(), 28);
    assert!(c.decrypt(&empty, b"head").unwrap().is_empty());
}
