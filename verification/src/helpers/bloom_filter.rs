//! The Bloom filters that nodes send each other to say what they already hold.
use vstd::prelude::*;

use crate::errors::{DecodeError, DecodeFault, EncodeError};
use crate::helpers::byteable::{lemma_skip_skip, Byteable};
use crate::helpers::codec::{be64, from_be64, get_u64, lemma_be64_roundtrip, put_bytes, put_u64, take_bytes};
use crate::types::Topic;

verus! {

/// A Bloom filter of topics (a `fastbloom::BloomFilter`, which Verus cannot
/// declare because its default hasher's types are private to its crate).
///
/// The field stays public: a filter received from another node is
/// deserialized outside the library, and no function here can take the
/// outside type as an argument. So a filter may have no bits at all (one
/// deserialized from a hostile peer), on which fastbloom's `contains` and
/// `insert` panic; the functions here that test or fill a filter require
/// `bloom_num_bits(f) > 0`, which `TopicFilter::checked` tests.
#[verifier::external_body]
pub struct TopicFilter {
    pub filter: fastbloom::BloomFilter,
}

/// The topics, by their bytes, that a filter answers "possibly present" for.
pub uninterp spec fn bloom_members(filter: TopicFilter) -> Set<Seq<u8>>;

/// The number of bits a filter holds (`fastbloom::BloomFilter::num_bits`).
pub uninterp spec fn bloom_num_bits(filter: TopicFilter) -> nat;

/// `fastbloom::BloomFilter::num_bits`: 64 times the number of words of the
/// filter's bit vector.
#[verifier::external_body]
pub fn bloom_num_bits_of(filter: &TopicFilter) -> (r: usize)
    ensures
        r == bloom_num_bits(*filter),
{
    filter.filter.num_bits()
}

/// `fastbloom::BloomFilter::contains` on a topic: whether the filter answers
/// "possibly present" for it, which is what `bloom_members` names. It indexes
/// the bit vector, so the filter must have bits.
#[verifier::external_body]
pub fn bloom_contains(filter: &TopicFilter, topic: &Topic) -> (r: bool)
    requires
        bloom_num_bits(*filter) > 0,
    ensures
        r == bloom_members(*filter).contains(topic@),
{
    filter.filter.contains(topic)
}

/// `fastbloom::BloomFilter::insert` of a topic. Inserting sets bits and
/// never clears one, so the topic is present afterwards, whatever was
/// present stays so, and the number of bits does not change. It indexes the
/// bit vector, so the filter must have bits.
#[verifier::external_body]
pub fn bloom_insert(filter: &mut TopicFilter, topic: &Topic)
    requires
        bloom_num_bits(*old(filter)) > 0,
    ensures
        bloom_members(*final(filter)).contains(topic@),
        bloom_members(*old(filter)).subset_of(bloom_members(*final(filter))),
        bloom_num_bits(*final(filter)) == bloom_num_bits(*old(filter)),
{
    filter.filter.insert(topic);
}

/// Whether every filter that `filter` may be has bits to test.
pub open spec fn filter_usable(filter: Option<&TopicFilter>) -> bool {
    filter matches Some(f) ==> bloom_num_bits(*f) > 0
}

impl TopicFilter {
    /// The filter, if it has bits to test; `None` for one with no bits,
    /// which could answer nothing.
    pub fn checked(filter: TopicFilter) -> (r: Option<TopicFilter>)
        ensures
            r is Some <==> bloom_num_bits(filter) > 0,
            r matches Some(f) ==> f == filter,
    {
        if bloom_num_bits_of(&filter) > 0 {
            Some(filter)
        } else {
            None
        }
    }
}

/// Inserts every topic of `topics` into `filter`.
pub fn insert_topics(filter: &mut TopicFilter, topics: &Vec<Topic>)
    requires
        bloom_num_bits(*old(filter)) > 0,
    ensures
        bloom_num_bits(*final(filter)) == bloom_num_bits(*old(filter)),
        forall|i: int| 0 <= i < topics@.len() ==> bloom_members(*final(filter)).contains(#[trigger] topics@[i]@),
        bloom_members(*old(filter)).subset_of(bloom_members(*final(filter))),
{
    let mut i: usize = 0;
    while i < topics.len()
        invariant
            i <= topics@.len(),
            forall|j: int| 0 <= j < i ==> bloom_members(*filter).contains(#[trigger] topics@[j]@),
            bloom_members(*old(filter)).subset_of(bloom_members(*filter)),
            bloom_num_bits(*filter) == bloom_num_bits(*old(filter)),
            bloom_num_bits(*old(filter)) > 0,
        decreases topics@.len() - i,
    {
        let ghost before = *filter;
        bloom_insert(filter, &topics[i]);
        i = i + 1;
    }
}

/// The topics of `topics` that `filter` does not hold, in their order.
pub open spec fn spec_filter_topics(topics: Seq<Topic>, filter: TopicFilter) -> Seq<Topic> {
    topics.filter(|t: Topic| !bloom_members(filter).contains(t@))
}

/// Keeps the topics that `filter` does not hold.
pub fn filter_topics(topics: Vec<Topic>, filter: &TopicFilter) -> (r: Vec<Topic>)
    requires
        bloom_num_bits(*filter) > 0,
    ensures
        r@ == spec_filter_topics(topics@, *filter),
{
    let mut out: Vec<Topic> = Vec::new();
    let mut i: usize = 0;
    let ghost pred = |t: Topic| !bloom_members(*filter).contains(t@);
    assert(topics@.take(0) =~= Seq::<Topic>::empty());
    while i < topics.len()
        invariant
            i <= topics@.len(),
            pred == (|t: Topic| !bloom_members(*filter).contains(t@)),
            out@ == topics@.take(i as int).filter(pred),
            bloom_num_bits(*filter) > 0,
        decreases topics@.len() - i,
    {
        let t = &topics[i];
        proof {
            assert(topics@.take(i + 1) =~= topics@.take(i as int).push(topics@[i as int]));
            topics@.take(i as int).lemma_filter_push(topics@[i as int], pred);
        }
        if !bloom_contains(filter, t) {
            out.push(*t);
        }
        i = i + 1;
    }
    assert(topics@.take(topics@.len() as int) =~= topics@);
    out
}


/// A topic that a filter holds is never kept by it, and a topic that it
/// does not hold always is: so once a node has put its own topics in the
/// filter it sends, none of them is sent back to it.
pub proof fn lemma_filter_keeps_exactly_the_absent(topics: Seq<Topic>, filter: TopicFilter, t: Topic)
    ensures
        spec_filter_topics(topics, filter).contains(t) <==> (topics.contains(t) && !bloom_members(filter).contains(t@)),
{
    let pred = |x: Topic| !bloom_members(filter).contains(x@);
    topics.filter_lemma(pred);
    if spec_filter_topics(topics, filter).contains(t) {
        topics.lemma_filter_contains_rev(pred, t);
    }
    if topics.contains(t) && pred(t) {
        let i = choose|i: int| 0 <= i < topics.len() && topics[i] == t;
        assert(topics.filter(pred).contains(topics[i]));
    }
}


/// A Bloom filter in the serialized form that nodes exchange; on the wire,
/// its length as a big-endian `u64`, then its bytes.
#[derive(Debug, Clone)]
pub struct SerializedFilter(pub Vec<u8>);

impl Byteable for SerializedFilter {
    type Model = Seq<u8>;

    open spec fn model(&self) -> Seq<u8> {
        self.0@
    }

    open spec fn wire_valid(m: Seq<u8>) -> bool {
        m.len() <= u64::MAX
    }

    open spec fn spec_encode(m: Seq<u8>) -> Result<Seq<u8>, EncodeError> {
        Ok(be64(m.len() as u64) + m)
    }

    open spec fn spec_decode(b: Seq<u8>) -> Result<(Seq<u8>, nat), DecodeFault> {
        if b.len() < 8 || b.len() - 8 < from_be64(b) {
            Err(DecodeFault::UnexpectedEof)
        } else {
            Ok((b.skip(8).take(from_be64(b) as int), (8 + from_be64(b)) as nat))
        }
    }

    fn encode(&self, out: &mut Vec<u8>) -> (r: Result<(), EncodeError>) {
        put_u64(out, self.0.len() as u64);
        put_bytes(out, self.0.as_slice());
        assert(out@ =~= old(out)@ + (be64(self.0@.len() as u64) + self.0@));
        Ok(())
    }

    fn decode(bytes: &[u8], pos: usize) -> (r: Result<(SerializedFilter, usize), DecodeError>) {
        let n = bytes.len();
        let len = match get_u64(bytes, pos) {
            Some(l) => l,
            None => return Err(DecodeError::UnexpectedEof),
        };
        if ((n - pos - 8) as u64) < len {
            return Err(DecodeError::UnexpectedEof);
        }
        let len = len as usize;
        proof {
            lemma_skip_skip(bytes@, pos as int, 8);
        }
        let body = take_bytes(bytes, pos + 8, len);
        Ok((SerializedFilter(body), pos + 8 + len))
    }

    proof fn lemma_roundtrip(m: Seq<u8>, rest: Seq<u8>) {
        let b = be64(m.len() as u64) + m + rest;
        lemma_be64_roundtrip(m.len() as u64);
        assert(from_be64(b) == from_be64(be64(m.len() as u64)));
        assert(b.skip(8).take(m.len() as int) =~= m);
    }

    proof fn lemma_decode_bound(b: Seq<u8>) {
    }
}

} // verus!
