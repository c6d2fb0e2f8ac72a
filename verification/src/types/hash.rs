//! SHA-512 digests that name indexes.
use vstd::prelude::*;

use crate::crypto::{sha512_digest, sha512_of};
use crate::encoding::{
    base64_url_nopad_decode, base64_url_nopad_decoded, base64_url_nopad_encode,
    base64_url_nopad_encoded,
};
use crate::errors::{Base64Error, DecodeError, DecodeFault, EncodeError};
use crate::helpers::byteable::Byteable;
use crate::types::keys::{array64_from, spec_fixed_from_base64};

verus! {

/// A 64-byte digest.
#[derive(Debug, Clone, Copy, Eq, Hash)]
pub struct Hash(pub [u8; 64]);

impl View for Hash {
    type V = Seq<u8>;

    open spec fn view(&self) -> Seq<u8> {
        self.0@
    }
}

impl PartialEq for Hash {
    fn eq(&self, other: &Self) -> (r: bool) {
        crate::helpers::codec::bytes_eq(self.0.as_slice(), other.0.as_slice())
    }
}

impl vstd::std_specs::cmp::PartialEqSpecImpl for Hash {
    open spec fn obeys_eq_spec() -> bool {
        true
    }

    open spec fn eq_spec(&self, other: &Self) -> bool {
        self@ == other@
    }
}

impl Hash {
    pub fn new(hash: [u8; 64]) -> (r: Hash)
        ensures
            r@ == hash@,
    {
        Hash(hash)
    }

    /// The SHA-512 digest of `bytes`.
    pub fn digest(bytes: &[u8]) -> (r: Hash)
        ensures
            r@ == sha512_of(bytes@),
    {
        Hash(sha512_digest(bytes))
    }

    pub fn inner(&self) -> (r: &[u8; 64])
        ensures
            r@ == self@,
    {
        &self.0
    }

    pub fn to_inner(&self) -> (r: [u8; 64])
        ensures
            r@ == self@,
    {
        self.0
    }

    /// The digest in URL-safe base64 without padding.
    pub fn as_base64(&self) -> (r: String)
        ensures
            r@ == base64_url_nopad_encoded(self@),
            base64_url_nopad_decoded(r@) == Some(self@),
    {
        base64_url_nopad_encode(self.0.as_slice())
    }

    pub fn from_base64(base64: &str) -> (r: Result<Hash, Base64Error>)
        ensures
            match spec_fixed_from_base64(base64_url_nopad_decoded(base64@), 64) {
                Ok(b) => r matches Ok(h) && h@ == b,
                Err(e) => r == Err::<Hash, Base64Error>(e),
            },
    {
        match base64_url_nopad_decode(base64) {
            None => Err(Base64Error::InvalidBase64),
            Some(bytes) => {
                if bytes.len() == 64 {
                    Ok(Hash(array64_from(&bytes)))
                } else {
                    Err(Base64Error::InvalidLength { actual: bytes.len(), expected: 64 })
                }
            },
        }
    }
}

impl Byteable for Hash {
    type Model = Seq<u8>;

    open spec fn wire_valid(m: Seq<u8>) -> bool {
        true
    }

    open spec fn model(&self) -> Seq<u8> {
        self@
    }

    open spec fn spec_encode(m: Seq<u8>) -> Result<Seq<u8>, EncodeError> {
        <[u8; 64] as Byteable>::spec_encode(m)
    }

    open spec fn spec_decode(b: Seq<u8>) -> Result<(Seq<u8>, nat), DecodeFault> {
        <[u8; 64] as Byteable>::spec_decode(b)
    }

    fn encode(&self, out: &mut Vec<u8>) -> (r: Result<(), EncodeError>) {
        self.0.encode(out)
    }

    fn decode(bytes: &[u8], pos: usize) -> (r: Result<(Hash, usize), DecodeError>) {
        match <[u8; 64] as Byteable>::decode(bytes, pos) {
            Ok((a, p)) => Ok((Hash(a), p)),
            Err(e) => Err(e),
        }
    }

    proof fn lemma_roundtrip(m: Seq<u8>, rest: Seq<u8>) {
        <[u8; 64] as Byteable>::lemma_roundtrip(m, rest);
    }

    proof fn lemma_decode_bound(b: Seq<u8>) {
    }
}

} // verus!
