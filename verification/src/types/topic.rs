//! Topics: the 64-byte names that events and posts are filed under.
use vstd::prelude::*;

use crate::encoding::{base64_std_nopad_encode, base64_std_nopad_encoded};
use crate::errors::{DecodeError, DecodeFault, EncodeError};
use crate::helpers::byteable::Byteable;
use crate::types::{PublicKey, Signature};
use crate::db::user::User;

verus! {

#[derive(Debug, Clone, Copy, Eq, Hash)]
pub struct Topic([u8; 64]);

impl View for Topic {
    type V = Seq<u8>;

    closed spec fn view(&self) -> Seq<u8> {
        self.0@
    }
}

impl PartialEq for Topic {
    fn eq(&self, other: &Self) -> (r: bool) {
        crate::helpers::codec::bytes_eq(self.0.as_slice(), other.0.as_slice())
    }
}

impl vstd::std_specs::cmp::PartialEqSpecImpl for Topic {
    open spec fn obeys_eq_spec() -> bool {
        true
    }

    open spec fn eq_spec(&self, other: &Self) -> bool {
        self@ == other@
    }
}

/// The topic of a user: its 32-byte key followed by 32 zero bytes.
pub open spec fn spec_user_topic(pub_key: Seq<u8>) -> Seq<u8> {
    pub_key + Seq::new(32, |i: int| 0u8)
}

impl Topic {
    /// A topic is 64 bytes.
    pub proof fn lemma_len(&self)
        ensures
            self@.len() == 64,
    {
    }

    pub fn from_signature(signature: Signature) -> (r: Topic)
        ensures
            r@ == signature@,
    {
        Topic(signature.to_inner())
    }

    /// The topic of a user, made of its public key.
    pub fn from_user(user: &User) -> (r: Topic)
        ensures
            r@ == spec_user_topic(user.spec_pub_key()),
    {
        Topic::from_pub_key(user.pub_key())
    }

    pub fn from_pub_key(pub_key: &PublicKey) -> (r: Topic)
        ensures
            r@ == spec_user_topic(pub_key@),
    {
        let mut bytes = [0u8; 64];
        let key = pub_key.as_bytes();
        let mut i: usize = 0;
        while i < 32
            invariant
                i <= 32,
                key@.len() == 32,
                bytes@.len() == 64,
                forall|j: int| 0 <= j < i ==> bytes@[j] == key@[j],
                forall|j: int| 32 <= j < 64 ==> bytes@[j] == 0u8,
            decreases 32 - i,
        {
            bytes[i] = key[i];
            i = i + 1;
        }
        assert(bytes@ =~= spec_user_topic(pub_key@));
        Topic(bytes)
    }

    pub fn from_bytes(bytes: [u8; 64]) -> (r: Topic)
        ensures
            r@ == bytes@,
    {
        Topic(bytes)
    }

    /// The topic in standard base64 without padding.
    pub fn as_base64(&self) -> (r: String)
        ensures
            r@ == base64_std_nopad_encoded(self@),
    {
        base64_std_nopad_encode(self.0.as_slice())
    }

    pub fn inner(&self) -> (r: &[u8; 64])
        ensures
            r@ == self@,
    {
        &self.0
    }

    pub fn to_inner(&self) -> (r: [u8; 64])
        ensures
            r@ == self@,
    {
        self.0
    }

    /// The first 32 bytes, taken as a public key (the inverse of `from_user`).
    pub fn user_key(&self) -> (r: PublicKey)
        ensures
            r@ == self@.take(32),
    {
        let mut key = [0u8; 32];
        let mut i: usize = 0;
        while i < 32
            invariant
                i <= 32,
                self.0@.len() == 64,
                key@.len() == 32,
                forall|j: int| 0 <= j < i ==> key@[j] == self.0@[j],
            decreases 32 - i,
        {
            key[i] = self.0[i];
            i = i + 1;
        }
        assert(key@ =~= self@.take(32));
        PublicKey::from_bytes_unchecked(key)
    }
}

/// The key read back from a user's topic is the user's key.
pub proof fn lemma_user_topic_key(pub_key: Seq<u8>)
    requires
        pub_key.len() == 32,
    ensures
        spec_user_topic(pub_key).take(32) == pub_key,
        spec_user_topic(pub_key).len() == 64,
{
    assert(spec_user_topic(pub_key).take(32) =~= pub_key);
}

impl Byteable for Topic {
    type Model = Seq<u8>;

    open spec fn wire_valid(m: Seq<u8>) -> bool {
        true
    }

    open spec fn model(&self) -> Seq<u8> {
        self@
    }

    open spec fn spec_encode(m: Seq<u8>) -> Result<Seq<u8>, EncodeError> {
        <[u8; 64] as Byteable>::spec_encode(m)
    }

    open spec fn spec_decode(b: Seq<u8>) -> Result<(Seq<u8>, nat), DecodeFault> {
        <[u8; 64] as Byteable>::spec_decode(b)
    }

    fn encode(&self, out: &mut Vec<u8>) -> (r: Result<(), EncodeError>) {
        self.0.encode(out)
    }

    fn decode(bytes: &[u8], pos: usize) -> (r: Result<(Topic, usize), DecodeError>) {
        match <[u8; 64] as Byteable>::decode(bytes, pos) {
            Ok((a, p)) => Ok((Topic(a), p)),
            Err(e) => Err(e),
        }
    }

    proof fn lemma_roundtrip(m: Seq<u8>, rest: Seq<u8>) {
        <[u8; 64] as Byteable>::lemma_roundtrip(m, rest);
    }

    proof fn lemma_decode_bound(b: Seq<u8>) {
    }
}

} // verus!
