//! Syncing events: a node asks another for what happened since a time, and
//! each side decides what to send and what to keep.
use vstd::prelude::*;

use crate::crypto::ed25519_verifies;
use crate::db::comments::{post_signed_bytes, Post, PostModel};
use crate::db::content::{content_id_bytes, Content, ContentModel};
use crate::db::event::{spec_decode_streams, EventType};
use crate::db::index::{index_id_bytes, Index, IndexModel};
use crate::db::tags::{IndexTag, MangaTag};
use crate::db::user::{user_signed_bytes, User, UserModel};
use crate::errors::{ClientError, DecodeError, DecodeFault, EncodeError};
use crate::helpers::bloom_filter::SerializedFilter;
use crate::helpers::byteable::{lemma_skip_concat, lemma_skip_skip, spec_encode_items, Byteable};
use crate::server::protocol::{AkarekoProtocolResponse, AkarekoStatus, StreamDecode, StreamModel};
use crate::types::{PublicKey, Signature, Timestamp, Topic};
use crate::server::handler::{AkarekoProtocolCommandMetadata, CommandsV1};

verus! {

/// The command that asks a node for the events since a time.
#[derive(Debug)]
pub struct SyncEvents;

impl AkarekoProtocolCommandMetadata for SyncEvents {
    open spec fn spec_command() -> CommandsV1 {
        CommandsV1::SyncEvents
    }

    fn command() -> (r: CommandsV1) {
        CommandsV1::SyncEvents
    }
}


/// A value that carries a signature over some of its fields, all of which
/// the wire format holds.
pub trait SignedItem: Byteable {
    /// Whether the signature of a value with this wire form holds.
    spec fn model_verifies(m: Self::Model) -> bool;

    fn check_signature(&self) -> (r: bool)
        ensures
            r == Self::model_verifies(self.model()),
    ;

    /// What holds of every value read from another node, beyond its wire form.
    spec fn spec_received(&self) -> bool;

    /// `decode`, which also gives a value as it stands when received.
    fn decode_received(bytes: &[u8], pos: usize) -> (r: Result<(Self, usize), DecodeError>)
        requires
            pos <= bytes@.len(),
        ensures
            match r {
                Ok((v, p)) => pos <= p <= bytes@.len() && Self::spec_decode(bytes@.skip(pos as int))
                    == Ok::<(Self::Model, nat), DecodeFault>((v.model(), (p - pos) as nat)) && v.spec_received(),
                Err(e) => Self::spec_decode(bytes@.skip(pos as int)) == Err::<(Self::Model, nat), DecodeFault>(
                    e.fault(),
                ),
            },
    ;
}

impl SignedItem for User {
    /// A user read from another node is not trusted yet.
    open spec fn spec_received(&self) -> bool {
        self.spec_trust() == crate::db::user::TrustLevel::Unverified
    }

    fn decode_received(bytes: &[u8], pos: usize) -> (r: Result<(User, usize), DecodeError>) {
        User::decode(bytes, pos)
    }

    open spec fn model_verifies(m: UserModel) -> bool {
        ed25519_verifies(m.0, user_signed_bytes(m.1.0, m.1.1.0, m.1.1.1.1), m.1.1.1.0)
    }

    fn check_signature(&self) -> (r: bool) {
        proof {
            self.lemma_decoded_fields();
        }
        self.verify()
    }
}

impl SignedItem for Post {
    open spec fn spec_received(&self) -> bool {
        true
    }

    fn decode_received(bytes: &[u8], pos: usize) -> (r: Result<(Post, usize), DecodeError>) {
        Post::decode(bytes, pos)
    }

    open spec fn model_verifies(m: PostModel) -> bool {
        ed25519_verifies(m.1.0, post_signed_bytes(m.1.1.0, m.1.1.1.1, m.1.1.1.0), m.0)
    }

    fn check_signature(&self) -> (r: bool) {
        self.verify()
    }
}

impl<T: IndexTag> SignedItem for Index<T> {
    open spec fn spec_received(&self) -> bool {
        true
    }

    fn decode_received(bytes: &[u8], pos: usize) -> (r: Result<(Index<T>, usize), DecodeError>) {
        Index::<T>::decode(bytes, pos)
    }

    open spec fn model_verifies(m: IndexModel) -> bool {
        ed25519_verifies(m.1.1.1.0, index_id_bytes(T::spec_tag(), m.1.0, m.1.1.0), m.1.1.1.1)
    }

    fn check_signature(&self) -> (r: bool) {
        self.verify()
    }
}

impl SignedItem for Content<MangaTag> {
    /// A content read from another node starts unread, as one chapter.
    open spec fn spec_received(&self) -> bool {
        self.spec_progress() == 0 && self.spec_count() == 1
    }

    fn decode_received(bytes: &[u8], pos: usize) -> (r: Result<(Content<MangaTag>, usize), DecodeError>) {
        Content::<MangaTag>::decode(bytes, pos)
    }

    open spec fn model_verifies(m: ContentModel<crate::helpers::Language>) -> bool {
        ed25519_verifies(
            m.0.1.0,
            content_id_bytes(
                m.0.1.1.0,
                m.0.1.1.1.0,
                m.0.1.1.1.1,
                m.1.0,
                m.1.1.0,
                m.1.1.1.0,
                m.1.1.1.1.0,
                crate::db::tags::chapter_bytes(m.1.1.1.1.1),
            ),
            m.0.0,
        )
    }

    fn check_signature(&self) -> (r: bool) {
        proof {
            self.lemma_model();
        }
        self.verify()
    }
}

/// Reading `n` signed items one after the other: the items whose
/// signature holds, in order, and where the reading ended, or why it stopped.
pub open spec fn spec_read_verified<T: SignedItem>(b: Seq<u8>, n: nat) -> (Seq<T::Model>, Result<nat, DecodeFault>)
    decreases n,
{
    if n == 0 {
        (Seq::empty(), Ok(0))
    } else {
        match T::spec_decode(b) {
            Err(f) => (Seq::empty(), Err(f)),
            Ok((m, k)) => {
                let (rest, end) = spec_read_verified::<T>(b.skip(k as int), (n - 1) as nat);
                (
                    if T::model_verifies(m) {
                        seq![m] + rest
                    } else {
                        rest
                    },
                    match end {
                        Ok(j) => Ok(k + j),
                        Err(f) => Err(f),
                    },
                )
            },
        }
    }
}

/// Reading back the items that a node wrote one after the other keeps
/// exactly those whose signature holds, in their order, and ends just after
/// the last of them, whatever follows.
pub proof fn lemma_read_written_keeps_verified<T: SignedItem>(s: Seq<T::Model>, rest: Seq<u8>)
    requires
        forall|i: int| 0 <= i < s.len() ==> T::wire_valid(#[trigger] s[i]),
        spec_encode_items::<T>(s) is Ok,
    ensures
        spec_read_verified::<T>(spec_encode_items::<T>(s)->Ok_0 + rest, s.len()) == (
            s.filter(|m: T::Model| T::model_verifies(m)),
            Ok::<nat, DecodeFault>(spec_encode_items::<T>(s)->Ok_0.len()),
        ),
    decreases s.len(),
{
    let pred = |m: T::Model| T::model_verifies(m);
    if s.len() == 0 {
        assert(s.filter(pred) =~= Seq::<T::Model>::empty()) by {
            reveal(Seq::filter);
        }
    } else {
        let a = T::spec_encode(s[0])->Ok_0;
        let t = s.drop_first();
        let b = spec_encode_items::<T>(t)->Ok_0;
        T::lemma_roundtrip(s[0], b + rest);
        assert(a + b + rest =~= a + (b + rest));
        lemma_skip_concat(a, b + rest);
        assert forall|i: int| 0 <= i < t.len() implies T::wire_valid(#[trigger] t[i]) by {
            assert(t[i] == s[i + 1]);
        }
        lemma_read_written_keeps_verified::<T>(t, rest);
        assert(seq![s[0]] + t =~= s);
        t.lemma_filter_prepend(s[0], pred);
        if T::model_verifies(s[0]) {
            assert(seq![s[0]] + t.filter(pred) =~= s.filter(pred));
        } else {
            assert(Seq::<T::Model>::empty() + t.filter(pred) =~= t.filter(pred));
        }
    }
}

/// Reading back a group of users that a node wrote, announced as users, gives
/// a group of users: exactly those whose signature holds, in their order.
pub proof fn lemma_read_written_users(s: Seq<UserModel>, rest: Seq<u8>)
    requires
        s.len() <= u64::MAX,
        forall|i: int| 0 <= i < s.len() ==> <User as Byteable>::wire_valid(#[trigger] s[i]),
        spec_encode_items::<User>(s) is Ok,
    ensures
        spec_read_group(spec_encode_items::<User>(s)->Ok_0 + rest, EventType::User, s.len() as u64) == (
            SyncGroupModel::Users(s.filter(|m: UserModel| <User as SignedItem>::model_verifies(m))),
            Ok::<nat, DecodeFault>(spec_encode_items::<User>(s)->Ok_0.len()),
        ),
{
    lemma_read_written_keeps_verified::<User>(s, rest);
}

/// Reading back a group of manga indexes that a node wrote, announced as
/// indexes, gives a group of indexes: exactly those whose signature holds.
pub proof fn lemma_read_written_mangas(s: Seq<IndexModel>, rest: Seq<u8>)
    requires
        s.len() <= u64::MAX,
        forall|i: int| 0 <= i < s.len() ==> <Index<MangaTag> as Byteable>::wire_valid(#[trigger] s[i]),
        spec_encode_items::<Index<MangaTag>>(s) is Ok,
    ensures
        spec_read_group(spec_encode_items::<Index<MangaTag>>(s)->Ok_0 + rest, EventType::Manga, s.len() as u64) == (
            SyncGroupModel::Mangas(s.filter(|m: IndexModel| <Index<MangaTag> as SignedItem>::model_verifies(m))),
            Ok::<nat, DecodeFault>(spec_encode_items::<Index<MangaTag>>(s)->Ok_0.len()),
        ),
{
    lemma_read_written_keeps_verified::<Index<MangaTag>>(s, rest);
}

/// Reading back a group of manga chapters that a node wrote, announced as
/// chapters, gives a group of chapters: exactly those whose signature holds.
pub proof fn lemma_read_written_manga_contents(s: Seq<ContentModel<crate::helpers::Language>>, rest: Seq<u8>)
    requires
        s.len() <= u64::MAX,
        forall|i: int| 0 <= i < s.len() ==> <Content<MangaTag> as Byteable>::wire_valid(#[trigger] s[i]),
        spec_encode_items::<Content<MangaTag>>(s) is Ok,
    ensures
        spec_read_group(spec_encode_items::<Content<MangaTag>>(s)->Ok_0 + rest, EventType::MangaContent, s.len() as u64) == (
            SyncGroupModel::MangaContents(s.filter(|m: ContentModel<crate::helpers::Language>| <Content<MangaTag> as SignedItem>::model_verifies(m))),
            Ok::<nat, DecodeFault>(spec_encode_items::<Content<MangaTag>>(s)->Ok_0.len()),
        ),
{
    lemma_read_written_keeps_verified::<Content<MangaTag>>(s, rest);
}

/// Reading back a group of posts that a node wrote, announced as posts, gives
/// a group of posts: exactly those whose signature holds, in their order.
pub proof fn lemma_read_written_posts(s: Seq<PostModel>, rest: Seq<u8>)
    requires
        s.len() <= u64::MAX,
        forall|i: int| 0 <= i < s.len() ==> <Post as Byteable>::wire_valid(#[trigger] s[i]),
        spec_encode_items::<Post>(s) is Ok,
    ensures
        spec_read_group(spec_encode_items::<Post>(s)->Ok_0 + rest, EventType::Post, s.len() as u64) == (
            SyncGroupModel::Posts(s.filter(|m: PostModel| <Post as SignedItem>::model_verifies(m))),
            Ok::<nat, DecodeFault>(spec_encode_items::<Post>(s)->Ok_0.len()),
        ),
{
    lemma_read_written_keeps_verified::<Post>(s, rest);
}

/// Reads the `count` items of a stream at `pos`, keeping those whose
/// signature holds and dropping the others. Gives the items kept, and the
/// position after the last item or the error that stopped the reading; the
/// items read before an error are kept.
pub fn read_verified<T: SignedItem>(bytes: &[u8], pos: usize, count: u64) -> (r: (Vec<T>, Result<usize, DecodeError>))
    requires
        pos <= bytes@.len(),
    ensures
        r.0@.map_values(|x: T| x.model()) == spec_read_verified::<T>(bytes@.skip(pos as int), count as nat).0,
        forall|i: int| 0 <= i < r.0@.len() ==> (#[trigger] r.0@[i]).spec_received(),
        match r.1 {
            Ok(p) => pos <= p <= bytes@.len() && spec_read_verified::<T>(bytes@.skip(pos as int), count as nat).1
                == Ok::<nat, DecodeFault>((p - pos) as nat),
            Err(e) => spec_read_verified::<T>(bytes@.skip(pos as int), count as nat).1 == Err::<
                nat,
                DecodeFault,
            >(e.fault()),
        },
{
    let mut left = count;
    let mut kept: Vec<T> = Vec::new();
    let mut p = pos;
    let ghost b0 = bytes@.skip(pos as int);
    let ghost full = spec_read_verified::<T>(b0, count as nat);
    assert(bytes@.skip(pos as int) =~= b0);
    assert(Seq::<T::Model>::empty() + full.0 =~= full.0);
    while left > 0
        invariant
            pos <= p <= bytes@.len(),
            b0 == bytes@.skip(pos as int),
            full == spec_read_verified::<T>(b0, count as nat),
            forall|i: int| 0 <= i < kept@.len() ==> (#[trigger] kept@[i]).spec_received(),
            ({
                let tail = spec_read_verified::<T>(bytes@.skip(p as int), left as nat);
                &&& full.0 == kept@.map_values(|x: T| x.model()) + tail.0
                &&& full.1 == match tail.1 {
                    Ok(j) => Ok::<nat, DecodeFault>(((p - pos) + j) as nat),
                    Err(f) => Err(f),
                }
            }),
        decreases left,
    {
        let ghost before = kept@.map_values(|x: T| x.model());
        match T::decode_received(bytes, p) {
            Ok((item, q)) => {
                proof {
                    lemma_skip_skip(bytes@, p as int, q - p);
                }
                let ghost m = item.model();
                if item.check_signature() {
                    kept.push(item);
                    proof {
                        let tail = spec_read_verified::<T>(bytes@.skip(q as int), (left - 1) as nat);
                        assert(kept@.map_values(|x: T| x.model()) =~= before.push(m));
                        assert(before + (seq![m] + tail.0) =~= before.push(m) + tail.0);
                    }
                }
                p = q;
                left = left - 1;
            },
            Err(e) => {
                assert(before + Seq::<T::Model>::empty() =~= before);
                return (kept, Err(e));
            },
        }
    }
    assert(kept@.map_values(|x: T| x.model()) + Seq::<T::Model>::empty() =~= kept@.map_values(|x: T| x.model()));
    (kept, Ok(p))
}

/// Asks a node for the events since `timestamp`, leaving out those whose
/// topics `filter` holds.
pub struct SyncEventsRequest {
    pub timestamp: Timestamp,
    pub filter: Option<SerializedFilter>,
}

impl Byteable for SyncEventsRequest {
    type Model = (i64, Option<Seq<u8>>);

    open spec fn model(&self) -> (i64, Option<Seq<u8>>) {
        (self.timestamp.0, match self.filter {
            Some(f) => Some(f.0@),
            None => None,
        })
    }

    open spec fn wire_valid(m: (i64, Option<Seq<u8>>)) -> bool {
        <(Timestamp, Option<SerializedFilter>) as Byteable>::wire_valid(m)
    }

    /// The time, then the filter.
    open spec fn spec_encode(m: (i64, Option<Seq<u8>>)) -> Result<Seq<u8>, EncodeError> {
        <(Timestamp, Option<SerializedFilter>) as Byteable>::spec_encode(m)
    }

    open spec fn spec_decode(b: Seq<u8>) -> Result<((i64, Option<Seq<u8>>), nat), DecodeFault> {
        <(Timestamp, Option<SerializedFilter>) as Byteable>::spec_decode(b)
    }

    fn encode(&self, out: &mut Vec<u8>) -> (r: Result<(), EncodeError>) {
        let _ = self.timestamp.encode(out);
        let ghost mid = out@;
        let r = self.filter.encode(out);
        proof {
            if r is Ok {
                assert(out@ =~= old(out)@ + (<Timestamp as Byteable>::spec_encode(self.timestamp.0)->Ok_0
                    + <Option<SerializedFilter> as Byteable>::spec_encode(self.model().1)->Ok_0));
            }
        }
        r
    }

    fn decode(bytes: &[u8], pos: usize) -> (r: Result<(SyncEventsRequest, usize), DecodeError>) {
        match <(Timestamp, Option<SerializedFilter>) as Byteable>::decode(bytes, pos) {
            Ok(((timestamp, filter), p)) => Ok((SyncEventsRequest { timestamp, filter }, p)),
            Err(e) => Err(e),
        }
    }

    proof fn lemma_roundtrip(m: (i64, Option<Seq<u8>>), rest: Seq<u8>) {
        <(Timestamp, Option<SerializedFilter>) as Byteable>::lemma_roundtrip(m, rest);
    }

    proof fn lemma_decode_bound(b: Seq<u8>) {
        <(Timestamp, Option<SerializedFilter>) as Byteable>::lemma_decode_bound(b);
    }
}

/// The answer to a sync: the time the answering node checked, and for each
/// kind of event, how many items follow.
#[derive(Debug)]
pub struct SyncEventsResponse {
    pub timestamp: Timestamp,
    pub decode_streams: Vec<(EventType, u64)>,
}

impl Byteable for SyncEventsResponse {
    type Model = (i64, Seq<(EventType, u64)>);

    open spec fn model(&self) -> (i64, Seq<(EventType, u64)>) {
        (self.timestamp.0, self.decode_streams@)
    }

    open spec fn wire_valid(m: (i64, Seq<(EventType, u64)>)) -> bool {
        <(Timestamp, Vec<(EventType, u64)>) as Byteable>::wire_valid(m)
    }

    /// The timestamp, then the list of counts.
    open spec fn spec_encode(m: (i64, Seq<(EventType, u64)>)) -> Result<Seq<u8>, EncodeError> {
        <(Timestamp, Vec<(EventType, u64)>) as Byteable>::spec_encode(m)
    }

    open spec fn spec_decode(b: Seq<u8>) -> Result<((i64, Seq<(EventType, u64)>), nat), DecodeFault> {
        <(Timestamp, Vec<(EventType, u64)>) as Byteable>::spec_decode(b)
    }

    fn encode(&self, out: &mut Vec<u8>) -> (r: Result<(), EncodeError>) {
        let r0 = self.timestamp.encode(out);
        let ghost mid = out@;
        let r1 = self.decode_streams.encode(out);
        proof {
            assert(self.decode_streams@.map_values(|x: (EventType, u64)| x.model()) =~= self.decode_streams@);
            if r1 is Ok {
                assert(out@ =~= old(out)@ + (<Timestamp as Byteable>::spec_encode(self.timestamp.0)->Ok_0
                    + <Vec<(EventType, u64)> as Byteable>::spec_encode(self.decode_streams@)->Ok_0));
            }
        }
        r1
    }

    fn decode(bytes: &[u8], pos: usize) -> (r: Result<(SyncEventsResponse, usize), DecodeError>) {
        match <(Timestamp, Vec<(EventType, u64)>) as Byteable>::decode(bytes, pos) {
            Ok(((timestamp, decode_streams), p)) => {
                assert(decode_streams@.map_values(|x: (EventType, u64)| x.model()) =~= decode_streams@);
                Ok((SyncEventsResponse { timestamp, decode_streams }, p))
            },
            Err(e) => Err(e),
        }
    }

    proof fn lemma_roundtrip(m: (i64, Seq<(EventType, u64)>), rest: Seq<u8>) {
        <(Timestamp, Vec<(EventType, u64)>) as Byteable>::lemma_roundtrip(m, rest);
    }

    proof fn lemma_decode_bound(b: Seq<u8>) {
        <(Timestamp, Vec<(EventType, u64)>) as Byteable>::lemma_decode_bound(b);
    }
}


/// The items to fetch and send for one group of events, named by the ids
/// their topics stand for.
pub enum SyncBatch {
    /// The users with these keys (the first 32 bytes of their topics).
    Users(Vec<PublicKey>),
    /// The manga indexes with these hashes.
    Mangas(Vec<crate::types::hash::Hash>),
    /// The manga contents with these signatures.
    MangaContents(Vec<Signature>),
    /// The posts with these signatures.
    Posts(Vec<Signature>),
}

/// What a batch asks for: the kind of event and the ids' bytes.
pub open spec fn spec_batch(b: SyncBatch) -> (EventType, Seq<Seq<u8>>) {
    match b {
        SyncBatch::Users(v) => (EventType::User, v@.map_values(|k: PublicKey| k@)),
        SyncBatch::Mangas(v) => (EventType::Manga, v@.map_values(|h: crate::types::hash::Hash| h@)),
        SyncBatch::MangaContents(v) => (EventType::MangaContent, v@.map_values(|s: Signature| s@)),
        SyncBatch::Posts(v) => (EventType::Post, v@.map_values(|s: Signature| s@)),
    }
}

/// The ids that the topics of a group of events of type `t` stand for: a
/// user's key is the first half of its topic; the other topics are the ids.
pub open spec fn spec_topic_ids(t: EventType, topics: Seq<Topic>) -> Seq<Seq<u8>> {
    if t == EventType::User {
        topics.map_values(|x: Topic| x@.take(32))
    } else {
        topics.map_values(|x: Topic| x@)
    }
}

/// The batch for a group of events of a valid type.
pub fn batch_for(event_type: EventType, topics: &Vec<Topic>) -> (r: SyncBatch)
    requires
        event_type != EventType::Invalid,
    ensures
        spec_batch(r) == (event_type, spec_topic_ids(event_type, topics@)),
{
    let n = topics.len();
    let mut i: usize = 0;
    match event_type {
        EventType::User => {
            let mut keys: Vec<PublicKey> = Vec::new();
            while i < n
                invariant
                    n == topics@.len(),
                    i <= n,
                    keys@.map_values(|k: PublicKey| k@) == topics@.take(i as int).map_values(|x: Topic| x@.take(32)),
                decreases n - i,
            {
                let ghost before = keys@;
                let item = topics[i].user_key();
                keys.push(item);
                proof {
                    assert(topics@.take(i + 1) =~= topics@.take(i as int).push(topics@[i as int]));
                    assert(keys@ =~= before.push(item));
                    assert(before.push(item).map_values(|k: PublicKey| k@) =~= before.map_values(|k: PublicKey| k@).push(item@));
                    assert(topics@.take(i as int).push(topics@[i as int]).map_values(|x: Topic| x@.take(32)) =~= topics@.take(i as int).map_values(|x: Topic| x@.take(32)).push(topics@[i as int]@.take(32)));
                }
                i = i + 1;
            }
            assert(topics@.take(n as int) =~= topics@);
            SyncBatch::Users(keys)
        },
        EventType::Manga => {
            let mut hashes: Vec<crate::types::hash::Hash> = Vec::new();
            while i < n
                invariant
                    n == topics@.len(),
                    i <= n,
                    hashes@.map_values(|h: crate::types::hash::Hash| h@) == topics@.take(i as int).map_values(|x: Topic| x@),
                decreases n - i,
            {
                let ghost before = hashes@;
                let item = crate::types::hash::Hash::new(topics[i].to_inner());
                hashes.push(item);
                proof {
                    assert(topics@.take(i + 1) =~= topics@.take(i as int).push(topics@[i as int]));
                    assert(hashes@ =~= before.push(item));
                    assert(before.push(item).map_values(|h: crate::types::hash::Hash| h@) =~= before.map_values(|h: crate::types::hash::Hash| h@).push(item@));
                    assert(topics@.take(i as int).push(topics@[i as int]).map_values(|x: Topic| x@) =~= topics@.take(i as int).map_values(|x: Topic| x@).push(topics@[i as int]@));
                }
                i = i + 1;
            }
            assert(topics@.take(n as int) =~= topics@);
            SyncBatch::Mangas(hashes)
        },
        _ => {
            let mut signatures: Vec<Signature> = Vec::new();
            while i < n
                invariant
                    n == topics@.len(),
                    i <= n,
                    signatures@.map_values(|s: Signature| s@) == topics@.take(i as int).map_values(|x: Topic| x@),
                decreases n - i,
            {
                let ghost before = signatures@;
                let item = Signature::from_bytes_unchecked(topics[i].to_inner());
                signatures.push(item);
                proof {
                    assert(topics@.take(i + 1) =~= topics@.take(i as int).push(topics@[i as int]));
                    assert(signatures@ =~= before.push(item));
                    assert(before.push(item).map_values(|s: Signature| s@) =~= before.map_values(|s: Signature| s@).push(item@));
                    assert(topics@.take(i as int).push(topics@[i as int]).map_values(|x: Topic| x@) =~= topics@.take(i as int).map_values(|x: Topic| x@).push(topics@[i as int]@));
                }
                i = i + 1;
            }
            assert(topics@.take(n as int) =~= topics@);
            if event_type == EventType::MangaContent {
                SyncBatch::MangaContents(signatures)
            } else {
                SyncBatch::Posts(signatures)
            }
        },
    }
}

/// What the answering node sends for a sync: a success carrying `now` and
/// the number of topics of each group, then, group by group, the items that
/// the topics stand for, which the batches name.
pub fn plan_sync_reply(events: &Vec<(EventType, Vec<Topic>)>, now: Timestamp) -> (r: (
    AkarekoProtocolResponse<SyncEventsResponse, ()>,
    Vec<SyncBatch>,
))
    requires
        forall|i: int| 0 <= i < events@.len() ==> (#[trigger] events@[i]).0 != EventType::Invalid,
    ensures
        r.0.spec_status() == AkarekoStatus::Success,
        r.0.spec_payload() matches Some(p) && p.timestamp == now && p.decode_streams@ == spec_decode_streams(
            events@,
        ),
        r.1@.len() == events@.len(),
        forall|i: int|
            0 <= i < events@.len() ==> spec_batch(#[trigger] r.1@[i]) == (
                events@[i].0,
                spec_topic_ids(events@[i].0, events@[i].1@),
            ),
{
    let decode_streams = crate::db::event::decode_streams(events);
    let mut batches: Vec<SyncBatch> = Vec::new();
    let mut i: usize = 0;
    while i < events.len()
        invariant
            i <= events@.len(),
            forall|j: int| 0 <= j < events@.len() ==> (#[trigger] events@[j]).0 != EventType::Invalid,
            batches@.len() == i,
            forall|j: int|
                0 <= j < i ==> spec_batch(#[trigger] batches@[j]) == (
                    events@[j].0,
                    spec_topic_ids(events@[j].0, events@[j].1@),
                ),
        decreases events@.len() - i,
    {
        let b = batch_for(events[i].0, &events[i].1);
        batches.push(b);
        i = i + 1;
    }
    (AkarekoProtocolResponse::ok(SyncEventsResponse { timestamp: now, decode_streams }), batches)
}

/// The payload of the answer to a sync, when it is a success.
pub fn accept_sync_response(res: AkarekoProtocolResponse<SyncEventsResponse, ()>) -> (r: Result<SyncEventsResponse, ClientError>)
    ensures
        !(res.spec_status() is Success) ==> r == Err::<SyncEventsResponse, ClientError>(
            ClientError::UnexpectedResponseCode { status: res.spec_status() },
        ),
        res.spec_status() is Success ==> r == match res.spec_payload() {
            Some(p) => Ok::<SyncEventsResponse, ClientError>(p),
            None => Err(ClientError::MissingPayload),
        },
{
    res.payload_if_ok()
}

/// The items received for one group of events, those whose signature held.
pub enum SyncGroup {
    Users(Vec<User>),
    Mangas(Vec<Index<MangaTag>>),
    MangaContents(Vec<Content<MangaTag>>),
    Posts(Vec<Post>),
}

/// What a received group holds, by the wire form of its items.
pub enum SyncGroupModel {
    Users(Seq<UserModel>),
    Mangas(Seq<IndexModel>),
    MangaContents(Seq<ContentModel<crate::helpers::Language>>),
    Posts(Seq<PostModel>),
}

pub open spec fn spec_group(g: SyncGroup) -> SyncGroupModel {
    match g {
        SyncGroup::Users(v) => SyncGroupModel::Users(v@.map_values(|x: User| x.model())),
        SyncGroup::Mangas(v) => SyncGroupModel::Mangas(v@.map_values(|x: Index<MangaTag>| x.model())),
        SyncGroup::MangaContents(v) => SyncGroupModel::MangaContents(
            v@.map_values(|x: Content<MangaTag>| x.model()),
        ),
        SyncGroup::Posts(v) => SyncGroupModel::Posts(v@.map_values(|x: Post| x.model())),
    }
}

/// Whether every item of a received group stands as it does when received
/// (users not trusted yet, contents unread).
pub open spec fn spec_group_received(g: SyncGroup) -> bool {
    match g {
        SyncGroup::Users(v) => forall|i: int| 0 <= i < v@.len() ==> (#[trigger] v@[i]).spec_received(),
        SyncGroup::Mangas(v) => forall|i: int| 0 <= i < v@.len() ==> (#[trigger] v@[i]).spec_received(),
        SyncGroup::MangaContents(v) => forall|i: int| 0 <= i < v@.len() ==> (#[trigger] v@[i]).spec_received(),
        SyncGroup::Posts(v) => forall|i: int| 0 <= i < v@.len() ==> (#[trigger] v@[i]).spec_received(),
    }
}

/// Reading one group of `n` items of type `t`: its verified items, and
/// where the reading ended, or why it stopped.
pub open spec fn spec_read_group(b: Seq<u8>, t: EventType, n: u64) -> (SyncGroupModel, Result<nat, DecodeFault>) {
    if t == EventType::User {
        let (m, e) = spec_read_verified::<User>(b, n as nat);
        (SyncGroupModel::Users(m), e)
    } else if t == EventType::Manga {
        let (m, e) = spec_read_verified::<Index<MangaTag>>(b, n as nat);
        (SyncGroupModel::Mangas(m), e)
    } else if t == EventType::MangaContent {
        let (m, e) = spec_read_verified::<Content<MangaTag>>(b, n as nat);
        (SyncGroupModel::MangaContents(m), e)
    } else {
        let (m, e) = spec_read_verified::<Post>(b, n as nat);
        (SyncGroupModel::Posts(m), e)
    }
}

/// Reading the groups announced by `streams`, one after the other, until
/// one cannot be read: the groups read (the last one possibly cut short),
/// and where the reading ended, or why it stopped.
pub open spec fn spec_read_groups(b: Seq<u8>, streams: Seq<(EventType, u64)>) -> (Seq<SyncGroupModel>, Result<nat, DecodeFault>)
    decreases streams.len(),
{
    if streams.len() == 0 {
        (Seq::empty(), Ok(0))
    } else {
        let (g, e) = spec_read_group(b, streams[0].0, streams[0].1);
        match e {
            Err(f) => (seq![g], Err(f)),
            Ok(k) => {
                let (rest, e2) = spec_read_groups(b.skip(k as int), streams.drop_first());
                (
                    seq![g] + rest,
                    match e2 {
                        Ok(j) => Ok(k + j),
                        Err(f) => Err(f),
                    },
                )
            },
        }
    }
}

fn read_group(bytes: &[u8], pos: usize, event_type: EventType, count: u64) -> (r: (SyncGroup, Result<usize, DecodeError>))
    requires
        pos <= bytes@.len(),
    ensures
        spec_group(r.0) == spec_read_group(bytes@.skip(pos as int), event_type, count).0,
        spec_group_received(r.0),
        match r.1 {
            Ok(p) => pos <= p <= bytes@.len() && spec_read_group(bytes@.skip(pos as int), event_type, count).1
                == Ok::<nat, DecodeFault>((p - pos) as nat),
            Err(e) => spec_read_group(bytes@.skip(pos as int), event_type, count).1 == Err::<nat, DecodeFault>(
                e.fault(),
            ),
        },
{
    match event_type {
        EventType::User => {
            let (v, e) = read_verified::<User>(bytes, pos, count);
            (SyncGroup::Users(v), e)
        },
        EventType::Manga => {
            let (v, e) = read_verified::<Index<MangaTag>>(bytes, pos, count);
            (SyncGroup::Mangas(v), e)
        },
        EventType::MangaContent => {
            let (v, e) = read_verified::<Content<MangaTag>>(bytes, pos, count);
            (SyncGroup::MangaContents(v), e)
        },
        _ => {
            let (v, e) = read_verified::<Post>(bytes, pos, count);
            (SyncGroup::Posts(v), e)
        },
    }
}

/// Reads the items that follow the answer to a sync, group by group as
/// `streams` announces them, keeping those whose signature holds. Stops at
/// the first item that cannot be read, keeping what was read before it.
#[verifier::rlimit(80)]
pub fn read_sync_groups(bytes: &[u8], pos: usize, streams: &Vec<(EventType, u64)>) -> (r: (Vec<SyncGroup>, Result<usize, DecodeError>))
    requires
        pos <= bytes@.len(),
    ensures
        r.0@.map_values(|g: SyncGroup| spec_group(g)) == spec_read_groups(bytes@.skip(pos as int), streams@).0,
        forall|i: int| 0 <= i < r.0@.len() ==> spec_group_received(#[trigger] r.0@[i]),
        match r.1 {
            Ok(p) => pos <= p <= bytes@.len() && spec_read_groups(bytes@.skip(pos as int), streams@).1
                == Ok::<nat, DecodeFault>((p - pos) as nat),
            Err(e) => spec_read_groups(bytes@.skip(pos as int), streams@).1 == Err::<nat, DecodeFault>(
                e.fault(),
            ),
        },
{
    let mut groups: Vec<SyncGroup> = Vec::new();
    let mut p = pos;
    let mut i: usize = 0;
    let ghost b0 = bytes@.skip(pos as int);
    let ghost full = spec_read_groups(b0, streams@);
    assert(streams@.skip(0) =~= streams@);
    assert(Seq::<SyncGroupModel>::empty() + full.0 =~= full.0);
    while i < streams.len()
        invariant
            pos <= p <= bytes@.len(),
            i <= streams@.len(),
            b0 == bytes@.skip(pos as int),
            full == spec_read_groups(b0, streams@),
            forall|j: int| 0 <= j < groups@.len() ==> spec_group_received(#[trigger] groups@[j]),
            ({
                let tail = spec_read_groups(bytes@.skip(p as int), streams@.skip(i as int));
                &&& full.0 == groups@.map_values(|g: SyncGroup| spec_group(g)) + tail.0
                &&& full.1 == match tail.1 {
                    Ok(j) => Ok::<nat, DecodeFault>(((p - pos) + j) as nat),
                    Err(f) => Err(f),
                }
            }),
        decreases streams@.len() - i,
    {
        let ghost before = groups@.map_values(|g: SyncGroup| spec_group(g));
        let (event_type, count) = streams[i];
        let (group, end) = read_group(bytes, p, event_type, count);
        let ghost gm = spec_group(group);
        proof {
            assert(streams@.skip(i as int)[0] == streams@[i as int]);
            assert(streams@.skip(i as int).drop_first() =~= streams@.skip(i + 1));
        }
        groups.push(group);
        proof {
            assert(groups@.map_values(|g: SyncGroup| spec_group(g)) =~= before.push(gm));
        }
        match end {
            Ok(q) => {
                proof {
                    lemma_skip_skip(bytes@, p as int, q - p);
                    let tail = spec_read_groups(bytes@.skip(q as int), streams@.skip(i + 1));
                    assert(before + (seq![gm] + tail.0) =~= before.push(gm) + tail.0);
                }
                p = q;
            },
            Err(e) => {
                assert(before + seq![gm] =~= before.push(gm));
                return (groups, Err(e));
            },
        }
        i = i + 1;
    }
    assert(groups@.map_values(|g: SyncGroup| spec_group(g)) + Seq::<SyncGroupModel>::empty() =~= groups@.map_values(
        |g: SyncGroup| spec_group(g),
    ));
    (groups, Ok(p))
}

} // verus!
