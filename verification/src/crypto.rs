//! Hashes and Ed25519 signatures, computed by `sha2` and `ed25519-dalek`.
use vstd::prelude::*;

verus! {

/// The SHA-512 digest of `data`.
pub uninterp spec fn sha512_of(data: Seq<u8>) -> Seq<u8>;

/// The SHA-256 digest of `data`.
pub uninterp spec fn sha256_of(data: Seq<u8>) -> Seq<u8>;

/// The Ed25519 public key of the secret key `secret`.
pub uninterp spec fn ed25519_public_key_of(secret: Seq<u8>) -> Seq<u8>;

/// The Ed25519 signature of `msg` under the secret key `secret`.
pub uninterp spec fn ed25519_signature_of(secret: Seq<u8>, msg: Seq<u8>) -> Seq<u8>;

/// Whether strict Ed25519 verification accepts `signature` of `msg` under `public_key`.
pub uninterp spec fn ed25519_verifies(public_key: Seq<u8>, msg: Seq<u8>, signature: Seq<u8>) -> bool;

/// `sha2::Sha512::digest`: the digest is a function of the data alone.
#[verifier::external_body]
pub(crate) fn sha512_digest(data: &[u8]) -> (r: [u8; 64])
    ensures
        r@ == sha512_of(data@),
{
    <sha2::Sha512 as sha2::Digest>::digest(data).into()
}

/// `sha2::Sha256::digest`: the digest is a function of the data alone.
#[verifier::external_body]
pub(crate) fn sha256_digest(data: &[u8]) -> (r: [u8; 32])
    ensures
        r@ == sha256_of(data@),
{
    <sha2::Sha256 as sha2::Digest>::digest(data).into()
}

/// `ed25519_dalek::SigningKey::from` a secret key, then its verifying key's
/// bytes: a function of the secret alone.
#[verifier::external_body]
pub(crate) fn ed25519_public_key(secret: &[u8; 32]) -> (r: [u8; 32])
    ensures
        r@ == ed25519_public_key_of(secret@),
{
    ed25519_dalek::SigningKey::from(secret).verifying_key().to_bytes()
}

/// Whether strict verification accepts the signature that `secret` gives of
/// `msg` under the matching public key. This is Ed25519's correctness, which
/// `verify_strict` lacks only when the signing nonce is zero modulo the group
/// order; nothing here claims it of the outside code: the library states what
/// holds of its own signatures under this premise.
pub open spec fn signs_verifiably(secret: Seq<u8>, msg: Seq<u8>) -> bool {
    ed25519_verifies(ed25519_public_key_of(secret), msg, ed25519_signature_of(secret, msg))
}

/// `ed25519_dalek::SigningKey::sign`: Ed25519 signing is deterministic, so
/// the signature is a function of the secret and the message alone. Whether
/// it verifies is not stated (see `signs_verifiably`).
#[verifier::external_body]
pub(crate) fn ed25519_sign(secret: &[u8; 32], msg: &[u8]) -> (r: [u8; 64])
    ensures
        r@ == ed25519_signature_of(secret@, msg@),
{
    let signing_key = ed25519_dalek::SigningKey::from_bytes(secret);
    <ed25519_dalek::SigningKey as ed25519_dalek::Signer<ed25519_dalek::Signature>>::sign(
        &signing_key,
        msg,
    ).to_bytes()
}

/// `ed25519_dalek::VerifyingKey::verify_strict`, where a public key that does
/// not decode fails the check as well: a function of the key, the message and
/// the signature.
#[verifier::external_body]
pub(crate) fn ed25519_verify_strict(public_key: &[u8; 32], msg: &[u8], signature: &[u8; 64]) -> (r:
    bool)
    ensures
        r == ed25519_verifies(public_key@, msg@, signature@),
{
    let signature = ed25519_dalek::Signature::from_bytes(signature);
    match ed25519_dalek::VerifyingKey::from_bytes(public_key) {
        Ok(key) => key.verify_strict(msg, &signature).is_ok(),
        Err(_) => false,
    }
}

/// A fresh Ed25519 secret key: 32 bytes from the operating system's random
/// source (`OsRng::try_fill_bytes`), which is how
/// `ed25519_dalek::SigningKey::generate` makes its secret; `None` when the
/// source fails. Nothing is stated of the bytes: they are random.
#[verifier::external_body]
pub(crate) fn ed25519_generate_secret() -> (r: Option<[u8; 32]>) {
    let mut secret = [0u8; 32];
    match rand::RngCore::try_fill_bytes(&mut rand::rngs::OsRng, &mut secret) {
        Ok(()) => Some(secret),
        Err(_) => None,
    }
}

} // verus!
