//! Posts: signed messages filed under a topic.
use vstd::prelude::*;

use crate::crypto::{ed25519_public_key_of, ed25519_signature_of, ed25519_verifies, signs_verifiably};
use crate::db::ToBytes;
use crate::errors::{DecodeError, DecodeFault, EncodeError};
use crate::helpers::byteable::{lemma_skip_skip, Byteable};
use crate::helpers::codec::{lemma_le64_signed_injective, le64_signed, put_bytes, put_i64_le};
use crate::types::{PrivateKey, PublicKey, Signature, String16, Timestamp, Topic};

verus! {

/// The bytes a post's signature covers: the topic, the content (UTF-8) and
/// the timestamp (little-endian).
pub open spec fn post_signed_bytes(topic: Seq<u8>, content: Seq<char>, timestamp: i64) -> Seq<u8> {
    topic + vstd::utf8::encode_utf8(content) + le64_signed(timestamp)
}

/// The bytes a post's signature covers begin with its 64 topic bytes, and
/// they determine its topic, content and timestamp: a post moved to another
/// topic, or changed in its content or time, is signed over other bytes.
pub proof fn lemma_post_signed_bytes_determine_fields(
    t1: Seq<u8>,
    c1: Seq<char>,
    ts1: i64,
    t2: Seq<u8>,
    c2: Seq<char>,
    ts2: i64,
)
    requires
        t1.len() == 64,
        t2.len() == 64,
    ensures
        post_signed_bytes(t1, c1, ts1).take(64) == t1,
        post_signed_bytes(t1, c1, ts1) == post_signed_bytes(t2, c2, ts2) ==> (t1 == t2 && c1 == c2 && ts1 == ts2),
{
    let u1 = vstd::utf8::encode_utf8(c1);
    let u2 = vstd::utf8::encode_utf8(c2);
    let l1 = le64_signed(ts1);
    let l2 = le64_signed(ts2);
    let b1 = t1 + u1 + l1;
    let b2 = t2 + u2 + l2;
    assert(b1.take(64) =~= t1);
    if post_signed_bytes(t1, c1, ts1) == post_signed_bytes(t2, c2, ts2) {
        assert(b1 == b2);
        assert(b2.take(64) =~= t2);
        assert(u1.len() == u2.len());
        assert(b1.skip((64 + u1.len()) as int) =~= l1);
        assert(b2.skip((64 + u2.len()) as int) =~= l2);
        lemma_le64_signed_injective(ts1, ts2);
        assert(b1.subrange(64, (64 + u1.len()) as int) =~= u1);
        assert(b2.subrange(64, (64 + u2.len()) as int) =~= u2);
        vstd::utf8::encode_utf8_decode_utf8(c1);
        vstd::utf8::encode_utf8_decode_utf8(c2);
    }
}

#[derive(Debug, Clone)]
pub struct Post {
    pub signature: Signature,
    /// Who posted.
    pub source: PublicKey,
    pub topic: Topic,
    pub timestamp: Timestamp,
    pub content: String16,
}

/// What the wire format holds of a post: signature, source, topic, timestamp and content.
pub type PostModel = (Seq<u8>, (Seq<u8>, (Seq<u8>, (i64, Seq<char>))));

type PostWire = (Signature, (PublicKey, (Topic, (Timestamp, String16))));

impl Post {
    pub const TABLE_NAME: &'static str = "posts";

    pub open spec fn spec_sign_bytes(&self) -> Seq<u8> {
        post_signed_bytes(self.topic@, self.content@, self.timestamp.0)
    }

    /// The bytes a post is signed over begin with its topic, and two posts
    /// signed over the same bytes have the same topic, content and timestamp.
    pub proof fn lemma_signed_fields(&self, other: &Post)
        ensures
            self.spec_sign_bytes().take(64) == self.topic@,
            self.spec_sign_bytes() == other.spec_sign_bytes() ==> (self.topic@ == other.topic@ && self.content@
                == other.content@ && self.timestamp == other.timestamp),
    {
        self.topic.lemma_len();
        other.topic.lemma_len();
        lemma_post_signed_bytes_determine_fields(
            self.topic@,
            self.content@,
            self.timestamp.0,
            other.topic@,
            other.content@,
            other.timestamp.0,
        );
    }

    pub fn new(
        content: String16,
        timestamp: Timestamp,
        source: PublicKey,
        topic: Topic,
        signature: Signature,
    ) -> (r: Post)
        ensures
            r.content@ == content@,
            r.timestamp == timestamp,
            r.source@ == source@,
            r.topic@ == topic@,
            r.signature@ == signature@,
    {
        Post { source, signature, topic, timestamp, content }
    }

    /// A post by the owner of `priv_key`, signed with it.
    pub fn new_signed(content: String16, timestamp: Timestamp, topic: Topic, priv_key: &PrivateKey) -> (r:
        Post)
        ensures
            r.content@ == content@,
            r.timestamp == timestamp,
            r.topic@ == topic@,
            r.source@ == ed25519_public_key_of(priv_key@),
            r.signature@ == ed25519_signature_of(
                priv_key@,
                post_signed_bytes(topic@, content@, timestamp.0),
            ),
            signs_verifiably(priv_key@, r.spec_sign_bytes()) ==> ed25519_verifies(
                r.source@,
                r.spec_sign_bytes(),
                r.signature@,
            ),
    {
        let mut comment = Post::new(content, timestamp, priv_key.public_key(), topic, Signature::empty());
        comment.sign(priv_key);
        comment
    }

    fn sign_bytes(&self) -> (r: Vec<u8>)
        ensures
            r@ == self.spec_sign_bytes(),
    {
        let mut bytes: Vec<u8> = Vec::new();
        put_bytes(&mut bytes, self.topic.inner().as_slice());
        put_bytes(&mut bytes, self.content.inner().as_bytes());
        put_i64_le(&mut bytes, self.timestamp.0);
        bytes
    }

    fn sign(&mut self, priv_key: &PrivateKey)
        ensures
            final(self).source == old(self).source,
            final(self).topic == old(self).topic,
            final(self).timestamp == old(self).timestamp,
            final(self).content == old(self).content,
            final(self).signature@ == ed25519_signature_of(priv_key@, old(self).spec_sign_bytes()),
            signs_verifiably(priv_key@, old(self).spec_sign_bytes()) ==> ed25519_verifies(
                ed25519_public_key_of(priv_key@),
                old(self).spec_sign_bytes(),
                final(self).signature@,
            ),
    {
        let to_sign = self.sign_bytes();
        self.signature = priv_key.sign(to_sign.as_slice());
    }

    /// Whether the signature is that of the source over topic, content and timestamp.
    pub fn verify(&self) -> (r: bool)
        ensures
            r == ed25519_verifies(self.source@, self.spec_sign_bytes(), self.signature@),
    {
        let to_verify = self.sign_bytes();
        self.source.verify(to_verify.as_slice(), &self.signature)
    }
}

impl Byteable for Post {
    type Model = PostModel;

    open spec fn wire_valid(m: PostModel) -> bool {
        <PostWire as Byteable>::wire_valid(m)
    }

    open spec fn model(&self) -> PostModel {
        (self.signature@, (self.source@, (self.topic@, (self.timestamp.0, self.content@))))
    }

    /// Signature, source, topic, timestamp and content, in that order.
    open spec fn spec_encode(m: PostModel) -> Result<Seq<u8>, EncodeError> {
        <PostWire as Byteable>::spec_encode(m)
    }

    open spec fn spec_decode(b: Seq<u8>) -> Result<(PostModel, nat), DecodeFault> {
        <PostWire as Byteable>::spec_decode(b)
    }

    fn encode(&self, out: &mut Vec<u8>) -> (r: Result<(), EncodeError>) {
        let ghost o0 = out@;
        let r = self.signature.encode(out);
        if r.is_err() {
            return r;
        }
        let ghost o1 = out@;
        let r = self.source.encode(out);
        if r.is_err() {
            return r;
        }
        let ghost o2 = out@;
        let r = self.topic.encode(out);
        if r.is_err() {
            return r;
        }
        let ghost o3 = out@;
        let r = self.timestamp.encode(out);
        if r.is_err() {
            return r;
        }
        let ghost o4 = out@;
        let r = self.content.encode(out);
        if r.is_err() {
            return r;
        }
        proof {
            let e0 = o1.skip(o0.len() as int);
            let e1 = o2.skip(o1.len() as int);
            let e2 = o3.skip(o2.len() as int);
            let e3 = o4.skip(o3.len() as int);
            let e4 = out@.skip(o4.len() as int);
            assert(e0 =~= <Signature as Byteable>::spec_encode(self.signature@)->Ok_0);
            assert(e1 =~= <PublicKey as Byteable>::spec_encode(self.source@)->Ok_0);
            assert(e2 =~= <Topic as Byteable>::spec_encode(self.topic@)->Ok_0);
            assert(e3 =~= <Timestamp as Byteable>::spec_encode(self.timestamp.0)->Ok_0);
            assert(e4 =~= <String16 as Byteable>::spec_encode(self.content@)->Ok_0);
            assert(out@ =~= o0 + (e0 + (e1 + (e2 + (e3 + e4)))));
        }
        Ok(())
    }

    fn decode(bytes: &[u8], pos: usize) -> (r: Result<(Post, usize), DecodeError>) {
        let (signature, p1) = match Signature::decode(bytes, pos) {
            Ok(v) => v,
            Err(e) => return Err(e),
        };
        proof {
            lemma_skip_skip(bytes@, pos as int, p1 - pos);
        }
        let (source, p2) = match PublicKey::decode(bytes, p1) {
            Ok(v) => v,
            Err(e) => return Err(e),
        };
        proof {
            lemma_skip_skip(bytes@, p1 as int, p2 - p1);
            lemma_skip_skip(bytes@, pos as int, p2 - pos);
        }
        let (topic, p3) = match Topic::decode(bytes, p2) {
            Ok(v) => v,
            Err(e) => return Err(e),
        };
        proof {
            lemma_skip_skip(bytes@, p2 as int, p3 - p2);
            lemma_skip_skip(bytes@, p1 as int, p3 - p1);
        }
        let (timestamp, p4) = match Timestamp::decode(bytes, p3) {
            Ok(v) => v,
            Err(e) => return Err(e),
        };
        proof {
            lemma_skip_skip(bytes@, p3 as int, p4 - p3);
            lemma_skip_skip(bytes@, p2 as int, p4 - p2);
        }
        let (content, p5) = match String16::decode(bytes, p4) {
            Ok(v) => v,
            Err(e) => return Err(e),
        };
        Ok((Post { signature, source, topic, timestamp, content }, p5))
    }

    proof fn lemma_roundtrip(m: PostModel, rest: Seq<u8>) {
        <PostWire as Byteable>::lemma_roundtrip(m, rest);
    }

    proof fn lemma_decode_bound(b: Seq<u8>) {
        <PostWire as Byteable>::lemma_decode_bound(b);
    }
}


impl Topic {
    /// The topic of a post: its signature.
    pub fn from_post(post: &Post) -> (r: Topic)
        ensures
            r@ == post.signature@,
    {
        Topic::from_signature(post.signature)
    }
}

} // verus!
