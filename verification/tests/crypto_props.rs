use service_skeleton::crypto::{decrypt, encrypt, make_key, ErrorKind};
use service_skeleton::secret::SecretString;

fn keypair() -> (SecretString, String) {
    let (prv, pb) = make_key().expect("keypair generation should succeed");
    (SecretString::new(prv.token().clone()), pb.token().clone())
}

#[test]
fn round_trip_returns_plaintext() {
    let (prv, pb) = keypair();
    let cipher = encrypt("s3kr1t", "some_field", pb.as_str()).expect("encryption should succeed");
    let plain = decrypt(cipher.as_str(), "some_field", &prv).expect("decryption should succeed");
    assert_eq!("s3kr1t", plain.as_str());
}

#[test]
fn round_trip_empty_plaintext() {
    let (prv, pb) = keypair();
    let cipher = encrypt("", "f", pb.as_str()).expect("encryption should succeed");
    let plain = decrypt(cipher.as_str(), "f", &prv).expect("decryption should succeed");
    assert_eq!("", plain.as_str());
}

#[test]
fn round_trip_keeps_non_ascii_text() {
    let (prv, pb) = keypair();
    let cipher = encrypt("héllo wörld ✓", "f", pb.as_str()).expect("encryption should succeed");
    let plain = decrypt(cipher.as_str(), "f", &prv).expect("decryption should succeed");
    assert_eq!("héllo wörld ✓", plain.as_str());
}

#[test]
fn context_binding_rejects_other_context() {
    let (prv, pb) = keypair();
    let cipher = encrypt("payload", "a", pb.as_str()).expect("encryption should succeed");
    let err = decrypt(cipher.as_str(), "b", &prv).expect_err("wrong context must fail");
    assert_eq!(ErrorKind::Crypto, err.kind());
}

#[test]
fn key_mismatch_rejects_other_keypair() {
    let (_, pb) = keypair();
    let (other_prv, _) = keypair();
    let cipher = encrypt("payload", "ctx", pb.as_str()).expect("encryption should succeed");
    let err = decrypt(cipher.as_str(), "ctx", &other_prv).expect_err("wrong key must fail");
    assert_eq!(ErrorKind::Crypto, err.kind());
}

#[test]
fn prefix_validation_rejects_private_key_on_encrypt() {
    let (prv, _) = keypair();
    let err =
        encrypt("payload", "ctx", prv.expose_secret().as_str()).expect_err("must reject prefix");
    assert_eq!(ErrorKind::Key, err.kind());
}

#[test]
fn prefix_validation_rejects_public_key_on_decrypt() {
    let (prv, pb) = keypair();
    let cipher = encrypt("payload", "ctx", pb.as_str()).expect("encryption should succeed");
    let err = decrypt(cipher.as_str(), "ctx", &SecretString::new(pb.clone()))
        .expect_err("must reject prefix");
    assert_eq!(ErrorKind::Key, err.kind());
    // The right key still works afterwards.
    assert_eq!("payload", decrypt(cipher.as_str(), "ctx", &prv).unwrap().as_str());
}

#[test]
fn tampered_ciphertext_fails() {
    let (prv, pb) = keypair();
    let cipher = encrypt("payload", "ctx", pb.as_str()).expect("encryption should succeed");
    // Flip one base64 character somewhere in the middle.
    let mut chars: Vec<char> = cipher.chars().collect();
    let mid = chars.len() / 2;
    chars[mid] = if chars[mid] == 'A' { 'B' } else { 'A' };
    let tampered: String = chars.into_iter().collect();
    let err = decrypt(tampered.as_str(), "ctx", &prv).expect_err("tampering must fail");
    assert_eq!(ErrorKind::Crypto, err.kind());
}

#[test]
fn malformed_base64_ciphertext_fails() {
    let (prv, _) = keypair();
    let err = decrypt("!!! not base64 !!!", "ctx", &prv).expect_err("must reject base64");
    assert_eq!(ErrorKind::Base64, err.kind());
}

#[test]
fn malformed_base64_key_payload_fails() {
    let err = encrypt("payload", "ctx", "sspuk:@@@").expect_err("must reject base64");
    assert_eq!(ErrorKind::Base64, err.kind());
}

#[test]
fn tokens_carry_their_prefixes() {
    let (prv, pb) = make_key().expect("keypair generation should succeed");
    assert!(prv.token().starts_with("ssprk:"));
    assert!(pb.token().starts_with("sspuk:"));
}

#[test]
fn ciphertexts_are_not_reused_verbatim() {
    // Encryption is randomised: two encryptions of one plaintext differ.
    let (_, pb) = keypair();
    let one = encrypt("payload", "ctx", pb.as_str()).unwrap();
    let two = encrypt("payload", "ctx", pb.as_str()).unwrap();
    assert_ne!(one, two);
}
