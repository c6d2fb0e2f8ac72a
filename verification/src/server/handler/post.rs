//! The post command, `post/get_posts_by_topic`, and posting contents to a relay.
use vstd::prelude::*;

use crate::crypto::ed25519_verifies;
use crate::db::content::Content;
use crate::db::tags::IndexTag;
use crate::errors::{DecodeError, DecodeFault, EncodeError};
use crate::helpers::bloom_filter::SerializedFilter;
use crate::helpers::byteable::lemma_skip_skip;
use crate::helpers::byteable::Byteable;
use crate::server::protocol::{AkarekoProtocolResponse, AkarekoStatus, StatusModel};
use crate::types::{Timestamp, Topic};
use crate::server::handler::{AkarekoProtocolCommandMetadata, CommandsV1};

verus! {

/// The command that asks a node for the posts under a topic.
#[derive(Debug)]
pub struct GetPostsByTopic;

impl AkarekoProtocolCommandMetadata for GetPostsByTopic {
    open spec fn spec_command() -> CommandsV1 {
        CommandsV1::GetPostsByTopic
    }

    fn command() -> (r: CommandsV1) {
        CommandsV1::GetPostsByTopic
    }
}

/// The relay command that gives a relay a content of indexes tagged `I`.
pub struct SendContent<I: IndexTag>(pub core::marker::PhantomData<I>);


/// Asks for the posts under a topic since a time, leaving out those whose
/// topics a filter holds.
pub struct GetPostsByTopicRequest {
    pub topic: Topic,
    pub timestamp: Option<Timestamp>,
    pub filter: Option<SerializedFilter>,
}

impl Byteable for GetPostsByTopicRequest {
    type Model = (Seq<u8>, (Option<i64>, Option<Seq<u8>>));

    open spec fn model(&self) -> (Seq<u8>, (Option<i64>, Option<Seq<u8>>)) {
        (self.topic@, (match self.timestamp { Some(t) => Some(t.0), None => None }, match self.filter { Some(f) => Some(f.0@), None => None }))
    }

    open spec fn wire_valid(m: (Seq<u8>, (Option<i64>, Option<Seq<u8>>))) -> bool {
        <(Topic, (Option<Timestamp>, Option<SerializedFilter>)) as Byteable>::wire_valid(m)
    }

    /// The topic, the time and the filter, in that order.
    open spec fn spec_encode(m: (Seq<u8>, (Option<i64>, Option<Seq<u8>>))) -> Result<Seq<u8>, EncodeError> {
        <(Topic, (Option<Timestamp>, Option<SerializedFilter>)) as Byteable>::spec_encode(m)
    }

    open spec fn spec_decode(b: Seq<u8>) -> Result<((Seq<u8>, (Option<i64>, Option<Seq<u8>>)), nat), DecodeFault> {
        <(Topic, (Option<Timestamp>, Option<SerializedFilter>)) as Byteable>::spec_decode(b)
    }

    fn encode(&self, out: &mut Vec<u8>) -> (r: Result<(), EncodeError>) {
        let ghost o0 = out@;
        let r = self.topic.encode(out);
        if r.is_err() {
            return r;
        }
        let ghost o1 = out@;
        let r = self.timestamp.encode(out);
        if r.is_err() {
            return r;
        }
        let ghost o2 = out@;
        let r = self.filter.encode(out);
        if r.is_err() {
            return r;
        }
        proof {
            let e0 = o1.skip(o0.len() as int);
            let e1 = o2.skip(o1.len() as int);
            let e2 = out@.skip(o2.len() as int);
            assert(e0 =~= <Topic as Byteable>::spec_encode(self.topic@)->Ok_0);
            assert(e1 =~= <Option<Timestamp> as Byteable>::spec_encode(match self.timestamp { Some(t) => Some(t.0), None => None })->Ok_0);
            assert(e2 =~= <Option<SerializedFilter> as Byteable>::spec_encode(match self.filter { Some(f) => Some(f.0@), None => None })->Ok_0);
            assert(out@ =~= o0 + (e0 + (e1 + e2)));
        }
        Ok(())
    }

    fn decode(bytes: &[u8], pos: usize) -> (r: Result<(GetPostsByTopicRequest, usize), DecodeError>) {
        let (topic, p1) = match <Topic as Byteable>::decode(bytes, pos) {
            Ok(v) => v,
            Err(e) => return Err(e),
        };
        proof {
            lemma_skip_skip(bytes@, pos as int, p1 - pos);
        }
        let (timestamp, p2) = match <Option<Timestamp> as Byteable>::decode(bytes, p1) {
            Ok(v) => v,
            Err(e) => return Err(e),
        };
        proof {
            lemma_skip_skip(bytes@, p1 as int, p2 - p1);
            lemma_skip_skip(bytes@, pos as int, p2 - pos);
        }
        let (filter, p3) = match <Option<SerializedFilter> as Byteable>::decode(bytes, p2) {
            Ok(v) => v,
            Err(e) => return Err(e),
        };
        Ok((GetPostsByTopicRequest { topic, timestamp, filter }, p3))
    }

    proof fn lemma_roundtrip(m: (Seq<u8>, (Option<i64>, Option<Seq<u8>>)), rest: Seq<u8>) {
        <(Topic, (Option<Timestamp>, Option<SerializedFilter>)) as Byteable>::lemma_roundtrip(m, rest);
    }

    proof fn lemma_decode_bound(b: Seq<u8>) {
        <(Topic, (Option<Timestamp>, Option<SerializedFilter>)) as Byteable>::lemma_decode_bound(b);
    }
}

/// The payload of the answer to `post/get_posts_by_topic`: nothing; the posts follow it.
#[derive(Debug)]
pub struct GetPostsByTopicResponse {}

impl Byteable for GetPostsByTopicResponse {
    type Model = ();

    open spec fn model(&self) -> () {
        ()
    }

    open spec fn wire_valid(m: ()) -> bool {
        true
    }

    /// Nothing.
    open spec fn spec_encode(m: ()) -> Result<Seq<u8>, EncodeError> {
        Ok(Seq::empty())
    }

    open spec fn spec_decode(b: Seq<u8>) -> Result<((), nat), DecodeFault> {
        Ok(((), 0))
    }

    fn encode(&self, out: &mut Vec<u8>) -> (r: Result<(), EncodeError>) {
        assert(out@ =~= out@ + Seq::<u8>::empty());
        Ok(())
    }

    fn decode(bytes: &[u8], pos: usize) -> (r: Result<(GetPostsByTopicResponse, usize), DecodeError>) {
        Ok((GetPostsByTopicResponse {}, pos))
    }

    proof fn lemma_roundtrip(m: (), rest: Seq<u8>) {
    }

    proof fn lemma_decode_bound(b: Seq<u8>) {
    }
}

/// Gives a relay a content to keep and pass on.
pub struct PostContentRequest<I: IndexTag> {
    pub content: Content<I>,
}

/// The payload of a relay's answer to a posted content: nothing.
#[derive(Debug)]
pub struct PostContentResponse {}

impl Byteable for PostContentResponse {
    type Model = ();

    open spec fn model(&self) -> () {
        ()
    }

    open spec fn wire_valid(m: ()) -> bool {
        true
    }

    /// Nothing.
    open spec fn spec_encode(m: ()) -> Result<Seq<u8>, EncodeError> {
        Ok(Seq::empty())
    }

    open spec fn spec_decode(b: Seq<u8>) -> Result<((), nat), DecodeFault> {
        Ok(((), 0))
    }

    fn encode(&self, out: &mut Vec<u8>) -> (r: Result<(), EncodeError>) {
        assert(out@ =~= out@ + Seq::<u8>::empty());
        Ok(())
    }

    fn decode(bytes: &[u8], pos: usize) -> (r: Result<(PostContentResponse, usize), DecodeError>) {
        Ok((PostContentResponse {}, pos))
    }

    proof fn lemma_roundtrip(m: (), rest: Seq<u8>) {
    }

    proof fn lemma_decode_bound(b: Seq<u8>) {
    }
}

/// The refusal of a posted content whose signature does not hold, if it does not.
pub fn post_content_rejection<I: IndexTag>(req: &PostContentRequest<I>) -> (r: Option<AkarekoProtocolResponse<PostContentResponse, ()>>)
    ensures
        r is None <==> ed25519_verifies(
            req.content.spec_poster(),
            req.content.spec_id_bytes(),
            req.content.spec_signature(),
        ),
        r matches Some(res) ==> res.spec_status()@ == StatusModel::InvalidArgument("Signature is not valid"@)
            && res.spec_payload() is None,
{
    if !req.content.verify() {
        Some(AkarekoProtocolResponse::invalid_argument(String::from_str("Signature is not valid")))
    } else {
        None
    }
}

/// The answer to a posted content once the store was asked to keep it.
pub fn post_content_answer(stored: bool) -> (r: AkarekoProtocolResponse<PostContentResponse, ()>)
    ensures
        stored ==> r.spec_status() == AkarekoStatus::Success && r.spec_payload() is Some,
        !stored ==> r.spec_status()@ == StatusModel::InternalError("Database error"@) && r.spec_payload() is None,
{
    if stored {
        AkarekoProtocolResponse::ok(PostContentResponse {})
    } else {
        AkarekoProtocolResponse::internal_error(String::from_str("Database error"))
    }
}

} // verus!
