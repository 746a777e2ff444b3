//! The sealed-box primitive underneath the crypto engine: X25519 key
//! agreement plus an authenticated cipher with the context as associated
//! data, provided by the strong_box crate.
//!
//! Key token bytes are 33 bytes long: a type byte (0 for private, 1 for
//! public) followed by the raw X25519 key.

use secrecy::ExposeSecret;
use strong_box::StrongBox;
use vstd::prelude::*;

verus! {

/// The public-key token bytes that strong_box derives for the private-key
/// token bytes `prv`.
pub uninterp spec fn shared_box_public_part(prv: Seq<u8>) -> Seq<u8>;

/// What strong_box's `SharedStrongBox` decryption yields for ciphertext
/// `cipher`, context `ctx` and key token bytes `prv`: the plaintext, or
/// `None` where the key token is unusable (wrong length, wrong type byte, no
/// private part), the ciphertext is malformed, or authentication fails.
/// Decryption is a function of these three values alone.
pub uninterp spec fn shared_box_decryption(cipher: Seq<u8>, ctx: Seq<u8>, prv: Seq<u8>) -> Option<
    Seq<u8>,
>;

/// `cipher` is a sealed box holding plaintext `pt` under context `ctx` for
/// the public-key token bytes `pub_part`: every private key matching
/// `pub_part` opens it under the same context, and no other context and no
/// other key does.
pub open spec fn sealed_to(cipher: Seq<u8>, pub_part: Seq<u8>, ctx: Seq<u8>, pt: Seq<u8>) -> bool {
    &&& forall|prv: Seq<u8>|
        shared_box_public_part(prv) == pub_part ==> #[trigger] shared_box_decryption(
            cipher,
            ctx,
            prv,
        ) == Some(pt)
    &&& forall|prv: Seq<u8>, other: Seq<u8>|
        shared_box_public_part(prv) == pub_part && other != ctx
            ==> #[trigger] shared_box_decryption(cipher, other, prv) is None
    &&& forall|prv: Seq<u8>|
        shared_box_public_part(prv) != pub_part ==> #[trigger] shared_box_decryption(
            cipher,
            ctx,
            prv,
        ) is None
}

/// Relies on strong_box's `SharedStrongBox::generate_key` and on the key's
/// `private()` and `public()` accessors: a fresh keypair whose public token
/// bytes are derived from its private token bytes, 33 bytes led by the
/// public type byte.
#[verifier::external_body]
pub(crate) fn generate_key_bytes() -> (r: Result<(Vec<u8>, Vec<u8>), String>)
    ensures
        r matches Ok(k) ==> k.1@ == shared_box_public_part(k.0@) && k.1@.len() == 33 && k.1@[0]
            == 1,
{
    let key = strong_box::SharedStrongBox::generate_key();
    match key.private() {
        Some(prv) => Ok((prv.expose_secret().to_vec(), key.public())),
        None => Err("generated key has no private part".to_string()),
    }
}

/// Relies on strong_box's `SharedStrongBoxKey::try_from`,
/// `SharedStrongBox::new` and `StrongBox::encrypt`: on success, and when the
/// key bytes are a public-key token, the result is a sealed box that exactly
/// the matching private key opens, under exactly the same context
/// (strong_box documents that decryption with a different key or a different
/// context fails).
#[verifier::external_body]
pub(crate) fn shared_box_encrypt(plaintext: &[u8], ctx: &[u8], public_key: &Vec<u8>) -> (r: Result<
    Vec<u8>,
    String,
>)
    ensures
        r matches Ok(c) ==> (public_key@.len() == 33 && public_key@[0] == 1 ==> sealed_to(
            c@,
            public_key@,
            ctx@,
            plaintext@,
        )),
{
    let key = match strong_box::SharedStrongBoxKey::try_from(public_key) {
        Ok(k) => k,
        Err(e) => return Err(e.to_string()),
    };
    strong_box::SharedStrongBox::new(key).encrypt(plaintext, ctx).map_err(|e| e.to_string())
}

/// Relies on strong_box's `SharedStrongBoxKey::try_from`,
/// `SharedStrongBox::new` and `StrongBox::decrypt`: the result reflects the
/// deterministic decryption of these three values, an error exactly where it
/// yields nothing.
#[verifier::external_body]
pub(crate) fn shared_box_decrypt(ciphertext: &Vec<u8>, ctx: &[u8], private_key: &Vec<u8>) -> (r:
    Result<Vec<u8>, String>)
    ensures
        match r {
            Ok(v) => shared_box_decryption(ciphertext@, ctx@, private_key@) == Some(v@),
            Err(_) => shared_box_decryption(ciphertext@, ctx@, private_key@) is None,
        },
{
    let key = match strong_box::SharedStrongBoxKey::try_from(private_key) {
        Ok(k) => k,
        Err(e) => return Err(e.to_string()),
    };
    strong_box::SharedStrongBox::new(key).decrypt(ciphertext, ctx).map_err(|e| e.to_string())
}

} // verus!
