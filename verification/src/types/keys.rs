//! Ed25519 keys and signatures.
use vstd::prelude::*;

use crate::crypto::{
    ed25519_generate_secret, ed25519_public_key, ed25519_public_key_of, ed25519_sign,
    ed25519_signature_of, ed25519_verifies, ed25519_verify_strict, signs_verifiably,
};
use crate::encoding::{
    base64_std_nopad_decode, base64_std_nopad_decoded, base64_std_nopad_encode,
    base64_std_nopad_encoded, base64_url_nopad_decode, base64_url_nopad_decoded,
    base64_url_nopad_encode, base64_url_nopad_encoded,
};
use crate::errors::{Base64Error, DecodeError, DecodeFault, EncodeError};
use crate::helpers::byteable::Byteable;

verus! {

/// An Ed25519 secret key.
#[derive(Debug, Clone)]
pub struct PrivateKey([u8; 32]);

/// An Ed25519 public key.
#[derive(Debug, Clone, Copy, Eq, Hash)]
pub struct PublicKey(pub [u8; 32]);

/// An Ed25519 signature.
#[derive(Debug, Clone, Copy, Eq, Hash)]
pub struct Signature(pub [u8; 64]);

impl PartialEq for PublicKey {
    fn eq(&self, other: &Self) -> (r: bool) {
        crate::helpers::codec::bytes_eq(self.0.as_slice(), other.0.as_slice())
    }
}

impl vstd::std_specs::cmp::PartialEqSpecImpl for PublicKey {
    open spec fn obeys_eq_spec() -> bool {
        true
    }

    open spec fn eq_spec(&self, other: &Self) -> bool {
        self@ == other@
    }
}

impl PartialEq for Signature {
    fn eq(&self, other: &Self) -> (r: bool) {
        crate::helpers::codec::bytes_eq(self.0.as_slice(), other.0.as_slice())
    }
}

impl vstd::std_specs::cmp::PartialEqSpecImpl for Signature {
    open spec fn obeys_eq_spec() -> bool {
        true
    }

    open spec fn eq_spec(&self, other: &Self) -> bool {
        self@ == other@
    }
}

/// Something that can be signed with a private key and checked with the matching public key.
pub trait Signable {
    fn sign(&self, private_key: &PrivateKey) -> Signature;

    fn verify(&self, public_key: &PublicKey, signature: &Signature) -> bool;
}

/// What `from_base64` gives for a text that decodes to `decoded`, when
/// `expected` bytes are needed.
pub open spec fn spec_fixed_from_base64(decoded: Option<Seq<u8>>, expected: nat) -> Result<Seq<u8>, Base64Error> {
    match decoded {
        None => Err(Base64Error::InvalidBase64),
        Some(b) => if b.len() == expected {
            Ok(b)
        } else {
            Err(Base64Error::InvalidLength { expected: expected as usize, actual: b.len() as usize })
        },
    }
}

fn array32_from(v: &Vec<u8>) -> (r: [u8; 32])
    requires
        v@.len() == 32,
    ensures
        r@ == v@,
{
    let mut a = [0u8; 32];
    let mut i: usize = 0;
    while i < 32
        invariant
            i <= 32,
            v@.len() == 32,
            a@.len() == 32,
            forall|j: int| 0 <= j < i ==> a@[j] == v@[j],
        decreases 32 - i,
    {
        a[i] = v[i];
        i = i + 1;
    }
    assert(a@ =~= v@);
    a
}

pub(crate) fn array64_from(v: &Vec<u8>) -> (r: [u8; 64])
    requires
        v@.len() == 64,
    ensures
        r@ == v@,
{
    let mut a = [0u8; 64];
    let mut i: usize = 0;
    while i < 64
        invariant
            i <= 64,
            v@.len() == 64,
            a@.len() == 64,
            forall|j: int| 0 <= j < i ==> a@[j] == v@[j],
        decreases 64 - i,
    {
        a[i] = v[i];
        i = i + 1;
    }
    assert(a@ =~= v@);
    a
}

impl View for PrivateKey {
    type V = Seq<u8>;

    closed spec fn view(&self) -> Seq<u8> {
        self.0@
    }
}

impl View for PublicKey {
    type V = Seq<u8>;

    open spec fn view(&self) -> Seq<u8> {
        self.0@
    }
}

impl View for Signature {
    type V = Seq<u8>;

    open spec fn view(&self) -> Seq<u8> {
        self.0@
    }
}

impl PrivateKey {
    /// A fresh key from the operating system's random source; `None` when
    /// that source fails.
    pub fn new() -> (r: Option<PrivateKey>)
        ensures
            r matches Some(k) ==> k@.len() == 32,
    {
        match ed25519_generate_secret() {
            Some(secret) => Some(PrivateKey(secret)),
            None => None,
        }
    }

    pub fn from_bytes(bytes: [u8; 32]) -> (r: PrivateKey)
        ensures
            r@ == bytes@,
    {
        PrivateKey(bytes)
    }

    /// The Ed25519 signature of `msg`.
    pub fn sign(&self, msg: &[u8]) -> (r: Signature)
        ensures
            r@ == ed25519_signature_of(self@, msg@),
            signs_verifiably(self@, msg@) ==> ed25519_verifies(ed25519_public_key_of(self@), msg@, r@),
    {
        Signature(ed25519_sign(&self.0, msg))
    }

    /// The public key that matches this secret key.
    pub fn public_key(&self) -> (r: PublicKey)
        ensures
            r@ == ed25519_public_key_of(self@),
    {
        PublicKey(ed25519_public_key(&self.0))
    }

    pub fn as_bytes(&self) -> (r: &[u8; 32])
        ensures
            r@ == self@,
    {
        &self.0
    }

    /// The key in standard base64 without padding.
    pub fn to_base64(&self) -> (r: String)
        ensures
            r@ == base64_std_nopad_encoded(self@),
            base64_std_nopad_decoded(r@) == Some(self@),
    {
        base64_std_nopad_encode(self.0.as_slice())
    }

    pub fn from_base64(base64: &str) -> (r: Result<PrivateKey, Base64Error>)
        ensures
            match spec_fixed_from_base64(base64_std_nopad_decoded(base64@), 32) {
                Ok(b) => r matches Ok(k) && k@ == b,
                Err(e) => r == Err::<PrivateKey, Base64Error>(e),
            },
    {
        match base64_std_nopad_decode(base64) {
            None => Err(Base64Error::InvalidBase64),
            Some(bytes) => {
                if bytes.len() == 32 {
                    Ok(PrivateKey(array32_from(&bytes)))
                } else {
                    Err(Base64Error::InvalidLength { expected: 32, actual: bytes.len() })
                }
            },
        }
    }
}

impl PublicKey {
    /// Whether `signature` is a valid signature of `msg` under this key.
    pub fn verify(&self, msg: &[u8], signature: &Signature) -> (r: bool)
        ensures
            r == ed25519_verifies(self@, msg@, signature@),
    {
        ed25519_verify_strict(&self.0, msg, &signature.0)
    }

    pub fn as_bytes(&self) -> (r: &[u8; 32])
        ensures
            r@ == self@,
    {
        &self.0
    }

    /// The key in standard base64 without padding.
    pub fn to_base64(&self) -> (r: String)
        ensures
            r@ == base64_std_nopad_encoded(self@),
            base64_std_nopad_decoded(r@) == Some(self@),
    {
        base64_std_nopad_encode(self.0.as_slice())
    }

    pub fn from_base64(base64: &str) -> (r: Result<PublicKey, Base64Error>)
        ensures
            match spec_fixed_from_base64(base64_std_nopad_decoded(base64@), 32) {
                Ok(b) => r matches Ok(k) && k@ == b,
                Err(e) => r == Err::<PublicKey, Base64Error>(e),
            },
    {
        match base64_std_nopad_decode(base64) {
            None => Err(Base64Error::InvalidBase64),
            Some(bytes) => {
                if bytes.len() == 32 {
                    Ok(PublicKey(array32_from(&bytes)))
                } else {
                    Err(Base64Error::InvalidLength { expected: 32, actual: bytes.len() })
                }
            },
        }
    }

    /// A key made of the given bytes, which are not checked to be a valid point.
    pub fn from_bytes_unchecked(bytes: [u8; 32]) -> (r: PublicKey)
        ensures
            r@ == bytes@,
    {
        PublicKey(bytes)
    }

    /// The key as lowercase hexadecimal, two digits per byte.
    pub fn to_hex(&self) -> (r: String)
        ensures
            r@ == crate::helpers::strings::spec_hex(self@),
    {
        crate::helpers::strings::hex_lower(self.0.as_slice())
    }
}

impl Signature {
    /// The signature made of 64 zero bytes.
    pub fn empty() -> (r: Signature)
        ensures
            r@ == Seq::new(64, |i: int| 0u8),
    {
        let r = Signature([0u8; 64]);
        assert(r@ =~= Seq::new(64, |i: int| 0u8));
        r
    }

    pub fn to_inner(self) -> (r: [u8; 64])
        ensures
            r@ == self@,
    {
        self.0
    }

    /// The signature in URL-safe base64 without padding.
    pub fn as_base64(&self) -> (r: String)
        ensures
            r@ == base64_url_nopad_encoded(self@),
            base64_url_nopad_decoded(r@) == Some(self@),
    {
        base64_url_nopad_encode(self.0.as_slice())
    }

    pub fn from_base64(base64: &str) -> (r: Result<Signature, Base64Error>)
        ensures
            match spec_fixed_from_base64(base64_url_nopad_decoded(base64@), 64) {
                Ok(b) => r matches Ok(s) && s@ == b,
                Err(e) => r == Err::<Signature, Base64Error>(e),
            },
    {
        match base64_url_nopad_decode(base64) {
            None => Err(Base64Error::InvalidBase64),
            Some(bytes) => {
                if bytes.len() == 64 {
                    Ok(Signature(array64_from(&bytes)))
                } else {
                    Err(Base64Error::InvalidLength { expected: 64, actual: bytes.len() })
                }
            },
        }
    }

    /// A signature made of the given bytes, which are not checked.
    pub fn from_bytes_unchecked(bytes: [u8; 64]) -> (r: Signature)
        ensures
            r@ == bytes@,
    {
        Signature(bytes)
    }
}

/// Reading a signature back from its base64 text gives the same signature.
pub proof fn lemma_signature_base64_roundtrip(s: Signature, text: Seq<char>)
    requires
        text == base64_url_nopad_encoded(s@),
        base64_url_nopad_decoded(text) == Some(s@),
    ensures
        spec_fixed_from_base64(base64_url_nopad_decoded(text), 64) == Ok::<Seq<u8>, Base64Error>(s@),
{
}

impl Byteable for PublicKey {
    type Model = Seq<u8>;

    open spec fn wire_valid(m: Seq<u8>) -> bool {
        true
    }

    open spec fn model(&self) -> Seq<u8> {
        self@
    }

    open spec fn spec_encode(m: Seq<u8>) -> Result<Seq<u8>, EncodeError> {
        <[u8; 32] as Byteable>::spec_encode(m)
    }

    open spec fn spec_decode(b: Seq<u8>) -> Result<(Seq<u8>, nat), DecodeFault> {
        <[u8; 32] as Byteable>::spec_decode(b)
    }

    fn encode(&self, out: &mut Vec<u8>) -> (r: Result<(), EncodeError>) {
        self.0.encode(out)
    }

    fn decode(bytes: &[u8], pos: usize) -> (r: Result<(PublicKey, usize), DecodeError>) {
        match <[u8; 32] as Byteable>::decode(bytes, pos) {
            Ok((a, p)) => Ok((PublicKey(a), p)),
            Err(e) => Err(e),
        }
    }

    proof fn lemma_roundtrip(m: Seq<u8>, rest: Seq<u8>) {
        <[u8; 32] as Byteable>::lemma_roundtrip(m, rest);
    }

    proof fn lemma_decode_bound(b: Seq<u8>) {
    }
}

impl Byteable for Signature {
    type Model = Seq<u8>;

    open spec fn wire_valid(m: Seq<u8>) -> bool {
        true
    }

    open spec fn model(&self) -> Seq<u8> {
        self@
    }

    open spec fn spec_encode(m: Seq<u8>) -> Result<Seq<u8>, EncodeError> {
        <[u8; 64] as Byteable>::spec_encode(m)
    }

    open spec fn spec_decode(b: Seq<u8>) -> Result<(Seq<u8>, nat), DecodeFault> {
        <[u8; 64] as Byteable>::spec_decode(b)
    }

    fn encode(&self, out: &mut Vec<u8>) -> (r: Result<(), EncodeError>) {
        self.0.encode(out)
    }

    fn decode(bytes: &[u8], pos: usize) -> (r: Result<(Signature, usize), DecodeError>) {
        match <[u8; 64] as Byteable>::decode(bytes, pos) {
            Ok((a, p)) => Ok((Signature(a), p)),
            Err(e) => Err(e),
        }
    }

    proof fn lemma_roundtrip(m: Seq<u8>, rest: Seq<u8>) {
        <[u8; 64] as Byteable>::lemma_roundtrip(m, rest);
    }

    proof fn lemma_decode_bound(b: Seq<u8>) {
    }
}

} // verus!
