//! The crypto engine: asymmetric confidentiality with context binding.
//!
//! Keys travel as text tokens: a fixed literal prefix that distinguishes
//! public from private keys, followed by the unpadded URL-safe base64 of the
//! raw key bytes. Encrypted values are the unpadded URL-safe base64 of the
//! sealed-box ciphertext, with no prefix of their own.

use crate::b64::{b64_decode, b64_decoding, b64_encode, b64_encoding};
use crate::sealedbox::{
    generate_key_bytes, sealed_to, shared_box_decrypt, shared_box_decryption, shared_box_encrypt,
    shared_box_public_part,
};
use crate::secret::SecretString;
use crate::strutil::{concat3, str_skip, str_starts_with, string_from_utf8};
use vstd::prelude::*;
use vstd::string::*;
use vstd::utf8::*;

verus! {

/// The literal prefix of a public-key token.
pub open spec fn public_prefix() -> Seq<char> {
    "sspuk:"@
}

/// The literal prefix of a private-key token.
pub open spec fn private_prefix() -> Seq<char> {
    "ssprk:"@
}

/// Does `s` start with `prefix`?
pub open spec fn has_prefix(s: Seq<char>, prefix: Seq<char>) -> bool {
    s.len() >= prefix.len() && s.take(prefix.len() as int) == prefix
}

/// The kind of a crypto failure, with the cause text abstracted away.
/// Decryption failures deliberately collapse wrong key, wrong context and
/// corrupted ciphertext into one kind, to avoid oracle leakage.
#[derive(Clone, Copy, PartialEq, Eq, Structural, Debug)]
pub enum ErrorKind {
    Base64,
    Crypto,
    Key,
    Utf8,
}

/// A failure of the crypto engine.
#[derive(Debug)]
pub enum Error {
    /// Input that should have been base64 was not.
    Base64DecodingFailed { cause: String },
    /// The underlying sealed-box operation failed: wrong key, wrong context
    /// or corrupted ciphertext, deliberately not distinguished further.
    Cryptography { cause: String },
    /// A key token was unusable, in particular its prefix did not match the
    /// role the operation expected.
    InvalidKey { cause: String },
    /// Decryption produced bytes that are not valid UTF-8.
    InvalidString { cause: String },
}

impl Error {
    /// The kind of this failure.
    pub open spec fn spec_kind(&self) -> ErrorKind {
        match self {
            Error::Base64DecodingFailed { .. } => ErrorKind::Base64,
            Error::Cryptography { .. } => ErrorKind::Crypto,
            Error::InvalidKey { .. } => ErrorKind::Key,
            Error::InvalidString { .. } => ErrorKind::Utf8,
        }
    }

    /// The kind of this failure.
    pub fn kind(&self) -> (r: ErrorKind)
        ensures
            r == self.spec_kind(),
    {
        match self {
            Error::Base64DecodingFailed { .. } => ErrorKind::Base64,
            Error::Cryptography { .. } => ErrorKind::Crypto,
            Error::InvalidKey { .. } => ErrorKind::Key,
            Error::InvalidString { .. } => ErrorKind::Utf8,
        }
    }

    /// The failure's description.
    pub open spec fn spec_describe(&self) -> Seq<char> {
        match self {
            Error::Base64DecodingFailed { cause } => "failed to decode base64 data: "@ + cause@,
            Error::Cryptography { cause } => "cryptographic failure: "@ + cause@,
            Error::InvalidKey { cause } => "invalid key: "@ + cause@,
            Error::InvalidString { cause } => "invalid string: "@ + cause@,
        }
    }

    /// A human-readable description, for callers that log failures.
    pub fn describe(&self) -> (r: String)
        ensures
            r@ == self.spec_describe(),
    {
        let r = match self {
            Error::Base64DecodingFailed { cause } => concat3(
                "failed to decode base64 data: ",
                cause.as_str(),
                "",
            ),
            Error::Cryptography { cause } => concat3(
                "cryptographic failure: ",
                cause.as_str(),
                "",
            ),
            Error::InvalidKey { cause } => concat3("invalid key: ", cause.as_str(), ""),
            Error::InvalidString { cause } => concat3("invalid string: ", cause.as_str(), ""),
        };
        proof {
            reveal_strlit("");
            assert(r@ =~= self.spec_describe());
        }
        r
    }
}

/// A freshly generated private-key token. The wrapper type keeps the two
/// halves of a keypair from being mixed up.
pub struct PrvKey {
    token: String,
}

/// A freshly generated public-key token.
pub struct PubKey {
    token: String,
}

impl View for PrvKey {
    type V = Seq<char>;

    closed spec fn view(&self) -> Seq<char> {
        self.token@
    }
}

impl View for PubKey {
    type V = Seq<char>;

    closed spec fn view(&self) -> Seq<char> {
        self.token@
    }
}

impl PrvKey {
    /// The textual token.
    pub fn token(&self) -> (r: &String)
        ensures
            r@ == self@,
    {
        &self.token
    }
}

impl PubKey {
    /// The textual token.
    pub fn token(&self) -> (r: &String)
        ensures
            r@ == self@,
    {
        &self.token
    }
}

/// `prv_tok` and `pub_tok` serialise one keypair whose raw halves are
/// `pb` and its derived public part.
pub open spec fn linked_via(prv_tok: Seq<char>, pub_tok: Seq<char>, pb: Seq<u8>) -> bool {
    &&& prv_tok == private_prefix() + b64_encoding(pb)
    &&& b64_decoding(b64_encoding(pb)) == Some(pb)
    &&& pub_tok == public_prefix() + b64_encoding(shared_box_public_part(pb))
    &&& b64_decoding(b64_encoding(shared_box_public_part(pb))) == Some(shared_box_public_part(pb))
    &&& shared_box_public_part(pb).len() == 33
    &&& shared_box_public_part(pb)[0] == 1
}

/// `prv_tok` and `pub_tok` are the two token halves of one keypair.
pub open spec fn keypair_linked(prv_tok: Seq<char>, pub_tok: Seq<char>) -> bool {
    exists|pb: Seq<u8>| #[trigger] linked_via(prv_tok, pub_tok, pb)
}

/// What decryption returns for an encrypted value `ciphertext`, a context
/// `ctx` and a private-key token `key`: the plaintext, or the kind of the
/// failure. This is the engine's exact decision tree.
pub open spec fn decrypt_model(ciphertext: Seq<char>, ctx: Seq<char>, key: Seq<char>) -> Result<
    Seq<char>,
    ErrorKind,
> {
    if b64_decoding(ciphertext) is None {
        Err(ErrorKind::Base64)
    } else if !has_prefix(key, private_prefix()) {
        Err(ErrorKind::Key)
    } else if b64_decoding(key.skip(private_prefix().len() as int)) is None {
        Err(ErrorKind::Base64)
    } else {
        match shared_box_decryption(
            b64_decoding(ciphertext).unwrap(),
            encode_utf8(ctx),
            b64_decoding(key.skip(private_prefix().len() as int)).unwrap(),
        ) {
            Option::None => Err(ErrorKind::Crypto),
            Option::Some(pt) => if valid_utf8(pt) {
                Ok(decode_utf8(pt))
            } else {
                Err(ErrorKind::Utf8)
            },
        }
    }
}

/// The decoded payload of a public-key token is well formed: 33 bytes led by
/// the public type byte.
pub open spec fn pub_payload_wf(key: Seq<char>) -> bool {
    let kb = b64_decoding(key.skip(public_prefix().len() as int)).unwrap();
    kb.len() == 33 && kb[0] == 1
}

/// A successful encryption of plaintext `pt` under context `ctx` and
/// public-key token `key` returned the encrypted value `cipher_tok`: the
/// token had the public prefix and a decodable payload, and the ciphertext
/// is a sealed box that only the matching private key, under the same
/// context, opens.
pub open spec fn encrypt_sealed(
    cipher_tok: Seq<char>,
    key: Seq<char>,
    ctx: Seq<char>,
    pt: Seq<char>,
) -> bool {
    &&& has_prefix(key, public_prefix())
    &&& b64_decoding(key.skip(public_prefix().len() as int)) is Some
    &&& exists|cb: Seq<u8>|
        {
            &&& cipher_tok == #[trigger] b64_encoding(cb)
            &&& b64_decoding(cipher_tok) == Some(cb)
            &&& (pub_payload_wf(key) ==> sealed_to(
                cb,
                b64_decoding(key.skip(public_prefix().len() as int)).unwrap(),
                encode_utf8(ctx),
                encode_utf8(pt),
            ))
        }
}

/// Generate a fresh keypair, serialised as a private and a public token.
/// Failure to source key material is reported, never retried.
pub fn make_key() -> (r: Result<(PrvKey, PubKey), Error>)
    ensures
        r matches Ok(kp) ==> keypair_linked(kp.0@, kp.1@),
        r matches Err(e) ==> e.spec_kind() == ErrorKind::Crypto,
{
    let (prv_bytes, pub_bytes) = match generate_key_bytes() {
        Ok(k) => k,
        Err(cause) => {
            return Err(Error::Cryptography { cause });
        },
    };
    let prv_b64 = b64_encode(prv_bytes.as_slice());
    let pub_b64 = b64_encode(pub_bytes.as_slice());
    let mut prv_tok = String::from_str("ssprk:");
    prv_tok.append(prv_b64.as_str());
    let mut pub_tok = String::from_str("sspuk:");
    pub_tok.append(pub_b64.as_str());
    proof {
        assert(linked_via(prv_tok@, pub_tok@, prv_bytes@));
    }
    Ok((PrvKey { token: prv_tok }, PubKey { token: pub_tok }))
}

/// Encrypt `plaintext` bound to `ctx` with a public-key token.
///
/// The context is mixed into the sealed box as associated data: decrypting
/// with any other context fails, even with the right private key.
pub fn encrypt(plaintext: &str, ctx: &str, key: &str) -> (r: Result<String, Error>)
    ensures
        (r matches Err(e) && e.spec_kind() == ErrorKind::Key) <==> !has_prefix(
            key@,
            public_prefix(),
        ),
        (r matches Err(e) && e.spec_kind() == ErrorKind::Base64) <==> (has_prefix(
            key@,
            public_prefix(),
        ) && b64_decoding(key@.skip(public_prefix().len() as int)) is None),
        r matches Err(e) ==> (e.spec_kind() == ErrorKind::Key || e.spec_kind()
            == ErrorKind::Base64 || e.spec_kind() == ErrorKind::Crypto),
        r matches Ok(c) ==> encrypt_sealed(c@, key@, ctx@, plaintext@),
{
    if !str_starts_with(key, "sspuk:") {
        return Err(Error::InvalidKey { cause: String::from_str("incorrect prefix") });
    }
    proof {
        reveal_strlit("sspuk:");
    }
    let payload = str_skip(key, 6);
    let key_bytes = match b64_decode(payload.as_str()) {
        Ok(v) => v,
        Err(cause) => {
            return Err(Error::Base64DecodingFailed { cause });
        },
    };
    let cipher_bytes = match shared_box_encrypt(plaintext.as_bytes(), ctx.as_bytes(), &key_bytes) {
        Ok(v) => v,
        Err(cause) => {
            return Err(Error::Cryptography { cause });
        },
    };
    let cipher_tok = b64_encode(cipher_bytes.as_slice());
    proof {
        assert(cipher_tok@ == b64_encoding(cipher_bytes@) && b64_decoding(cipher_tok@) == Some(
            cipher_bytes@,
        ));
    }
    Ok(cipher_tok)
}

/// Decrypt an encrypted value bound to `ctx` with a private-key token.
///
/// The result is exactly what [`decrypt_model`] prescribes: the recovered
/// plaintext, or a failure of the model's kind.
pub fn decrypt(ciphertext: &str, ctx: &str, key: &SecretString) -> (r: Result<String, Error>)
    ensures
        r matches Ok(s) ==> decrypt_model(ciphertext@, ctx@, key@) == Ok::<Seq<char>, ErrorKind>(
            s@,
        ),
        r matches Err(e) ==> decrypt_model(ciphertext@, ctx@, key@) == Err::<
            Seq<char>,
            ErrorKind,
        >(e.spec_kind()),
{
    let cipher_bytes = match b64_decode(ciphertext) {
        Ok(v) => v,
        Err(cause) => {
            return Err(Error::Base64DecodingFailed { cause });
        },
    };
    let key_str: &String = key.expose_secret();
    if !str_starts_with(key_str.as_str(), "ssprk:") {
        return Err(Error::InvalidKey { cause: String::from_str("incorrect prefix") });
    }
    proof {
        reveal_strlit("ssprk:");
    }
    let payload = str_skip(key_str.as_str(), 6);
    let key_bytes = match b64_decode(payload.as_str()) {
        Ok(v) => v,
        Err(cause) => {
            return Err(Error::Base64DecodingFailed { cause });
        },
    };
    let pt_bytes = match shared_box_decrypt(&cipher_bytes, ctx.as_bytes(), &key_bytes) {
        Ok(v) => v,
        Err(cause) => {
            return Err(Error::Cryptography { cause });
        },
    };
    match string_from_utf8(pt_bytes) {
        Ok(s) => Ok(s),
        Err(cause) => Err(Error::InvalidString { cause }),
    }
}

/// Round trip: an encrypted value produced for a keypair's public token,
/// decrypted under the same context with the keypair's private token, gives
/// back exactly the original plaintext.
pub proof fn lemma_round_trip(
    prv_tok: Seq<char>,
    pub_tok: Seq<char>,
    cipher_tok: Seq<char>,
    ctx: Seq<char>,
    pt: Seq<char>,
)
    requires
        keypair_linked(prv_tok, pub_tok),
        encrypt_sealed(cipher_tok, pub_tok, ctx, pt),
    ensures
        decrypt_model(cipher_tok, ctx, prv_tok) == Ok::<Seq<char>, ErrorKind>(pt),
{
    let pb = choose|pb: Seq<u8>| linked_via(prv_tok, pub_tok, pb);
    let cb = choose|cb: Seq<u8>|
        {
            &&& cipher_tok == #[trigger] b64_encoding(cb)
            &&& b64_decoding(cipher_tok) == Some(cb)
            &&& (pub_payload_wf(pub_tok) ==> sealed_to(
                cb,
                b64_decoding(pub_tok.skip(public_prefix().len() as int)).unwrap(),
                encode_utf8(ctx),
                encode_utf8(pt),
            ))
        };
    assert((private_prefix() + b64_encoding(pb)).take(private_prefix().len() as int)
        =~= private_prefix());
    assert((private_prefix() + b64_encoding(pb)).skip(private_prefix().len() as int)
        =~= b64_encoding(pb));
    assert((public_prefix() + b64_encoding(shared_box_public_part(pb))).skip(
        public_prefix().len() as int,
    ) =~= b64_encoding(shared_box_public_part(pb)));
    assert(pub_payload_wf(pub_tok));
    assert(shared_box_decryption(cb, encode_utf8(ctx), pb) == Some(encode_utf8(pt)));
    encode_utf8_valid_utf8(pt);
    encode_utf8_decode_utf8(pt);
}

/// Context binding: an encrypted value produced under one context fails to
/// decrypt under any other context, even with the right private key, and the
/// failure is the indistinct decryption failure.
pub proof fn lemma_context_binding(
    prv_tok: Seq<char>,
    pub_tok: Seq<char>,
    cipher_tok: Seq<char>,
    ctx: Seq<char>,
    other: Seq<char>,
    pt: Seq<char>,
)
    requires
        keypair_linked(prv_tok, pub_tok),
        encrypt_sealed(cipher_tok, pub_tok, ctx, pt),
        other != ctx,
    ensures
        decrypt_model(cipher_tok, other, prv_tok) == Err::<Seq<char>, ErrorKind>(ErrorKind::Crypto),
{
    let pb = choose|pb: Seq<u8>| linked_via(prv_tok, pub_tok, pb);
    let cb = choose|cb: Seq<u8>|
        {
            &&& cipher_tok == #[trigger] b64_encoding(cb)
            &&& b64_decoding(cipher_tok) == Some(cb)
            &&& (pub_payload_wf(pub_tok) ==> sealed_to(
                cb,
                b64_decoding(pub_tok.skip(public_prefix().len() as int)).unwrap(),
                encode_utf8(ctx),
                encode_utf8(pt),
            ))
        };
    assert((private_prefix() + b64_encoding(pb)).take(private_prefix().len() as int)
        =~= private_prefix());
    assert((private_prefix() + b64_encoding(pb)).skip(private_prefix().len() as int)
        =~= b64_encoding(pb));
    assert((public_prefix() + b64_encoding(shared_box_public_part(pb))).skip(
        public_prefix().len() as int,
    ) =~= b64_encoding(shared_box_public_part(pb)));
    assert(pub_payload_wf(pub_tok));
    encode_utf8_decode_utf8(ctx);
    encode_utf8_decode_utf8(other);
    assert(encode_utf8(other) != encode_utf8(ctx));
    assert(shared_box_decryption(cb, encode_utf8(other), pb) is None);
}

/// Key mismatch: an encrypted value produced for one keypair fails to
/// decrypt with the private key of a keypair whose public half differs, and
/// the failure is the indistinct decryption failure.
pub proof fn lemma_key_mismatch(
    prv_tok: Seq<char>,
    pub_tok: Seq<char>,
    other_prv_tok: Seq<char>,
    other_pub_tok: Seq<char>,
    cipher_tok: Seq<char>,
    ctx: Seq<char>,
    pt: Seq<char>,
)
    requires
        keypair_linked(prv_tok, pub_tok),
        keypair_linked(other_prv_tok, other_pub_tok),
        encrypt_sealed(cipher_tok, pub_tok, ctx, pt),
        pub_tok != other_pub_tok,
    ensures
        decrypt_model(cipher_tok, ctx, other_prv_tok) == Err::<Seq<char>, ErrorKind>(
            ErrorKind::Crypto,
        ),
{
    let pb = choose|pb: Seq<u8>| linked_via(prv_tok, pub_tok, pb);
    let ob = choose|ob: Seq<u8>| linked_via(other_prv_tok, other_pub_tok, ob);
    let cb = choose|cb: Seq<u8>|
        {
            &&& cipher_tok == #[trigger] b64_encoding(cb)
            &&& b64_decoding(cipher_tok) == Some(cb)
            &&& (pub_payload_wf(pub_tok) ==> sealed_to(
                cb,
                b64_decoding(pub_tok.skip(public_prefix().len() as int)).unwrap(),
                encode_utf8(ctx),
                encode_utf8(pt),
            ))
        };
    assert((private_prefix() + b64_encoding(ob)).take(private_prefix().len() as int)
        =~= private_prefix());
    assert((private_prefix() + b64_encoding(ob)).skip(private_prefix().len() as int)
        =~= b64_encoding(ob));
    assert((public_prefix() + b64_encoding(shared_box_public_part(pb))).skip(
        public_prefix().len() as int,
    ) =~= b64_encoding(shared_box_public_part(pb)));
    assert(pub_payload_wf(pub_tok));
    // The two public tokens differ, so the raw public parts differ.
    assert(shared_box_public_part(ob) != shared_box_public_part(pb)) by {
        if shared_box_public_part(ob) == shared_box_public_part(pb) {
            assert(other_pub_tok == pub_tok);
        }
    }
    assert(shared_box_decryption(cb, encode_utf8(ctx), ob) is None);
}

/// Prefix validation: the private token of a keypair never carries the
/// public prefix, so passing it where a public token is expected fails with
/// an invalid-key error; and decrypting with the public token fails with an
/// invalid-key error before the key payload is ever decoded.
pub proof fn lemma_prefix_validation(
    prv_tok: Seq<char>,
    pub_tok: Seq<char>,
    cipher_tok: Seq<char>,
    ctx: Seq<char>,
)
    requires
        keypair_linked(prv_tok, pub_tok),
        b64_decoding(cipher_tok) is Some,
    ensures
        !has_prefix(prv_tok, public_prefix()),
        decrypt_model(cipher_tok, ctx, pub_tok) == Err::<Seq<char>, ErrorKind>(ErrorKind::Key),
{
    let pb = choose|pb: Seq<u8>| linked_via(prv_tok, pub_tok, pb);
    reveal_strlit("sspuk:");
    reveal_strlit("ssprk:");
    assert(public_prefix()[3] == 'u' && private_prefix()[3] == 'r');
    assert((private_prefix() + b64_encoding(pb)).take(private_prefix().len() as int)
        =~= private_prefix());
    assert((public_prefix() + b64_encoding(shared_box_public_part(pb))).take(
        public_prefix().len() as int,
    ) =~= public_prefix());
    if has_prefix(prv_tok, public_prefix()) {
        assert(prv_tok.take(6)[3] == 'u');
        assert(prv_tok.take(6) =~= private_prefix());
    }
    assert(!has_prefix(pub_tok, private_prefix())) by {
        if has_prefix(pub_tok, private_prefix()) {
            assert(pub_tok.take(6)[3] == 'r');
            assert(pub_tok.take(6) =~= public_prefix());
        }
    }
}

} // verus!
