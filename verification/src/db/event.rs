//! Events: what changed, when, and under which topic.
use vstd::prelude::*;

use crate::errors::{DecodeError, DecodeFault, EncodeError};
use crate::helpers::byteable::{
    decode_string, encode_str, lemma_str_roundtrip, spec_decode_str, spec_encode_str, Byteable,
};
use crate::helpers::strings::str_eq;
use crate::helpers::bloom_filter::{filter_topics, spec_filter_topics, TopicFilter};
use crate::db::comments::Post;
use crate::db::content::Content;
use crate::db::index::Index;
use crate::db::tags::IndexTag;
use crate::helpers::bloom_filter::{bloom_contains, bloom_members, bloom_num_bits, filter_usable};
use crate::types::{Timestamp, Topic};

verus! {

#[derive(Debug, Clone, Copy, PartialEq, Eq, Hash, Structural)]
pub enum EventType {
    Invalid,
    User,
    Manga,
    MangaContent,
    Post,
}

/// The name an event type is written with.
pub open spec fn spec_event_name(t: EventType) -> Seq<char> {
    match t {
        EventType::Invalid => ""@,
        EventType::User => "user"@,
        EventType::Manga => "mangas"@,
        EventType::MangaContent => "manga_chapters"@,
        EventType::Post => "post"@,
    }
}

/// The event type a name stands for; the empty name stands for none.
pub open spec fn spec_event_from_name(s: Seq<char>) -> Option<EventType> {
    if s == "user"@ {
        Some(EventType::User)
    } else if s == "mangas"@ {
        Some(EventType::Manga)
    } else if s == "manga_chapters"@ {
        Some(EventType::MangaContent)
    } else if s == "post"@ {
        Some(EventType::Post)
    } else {
        None
    }
}

/// Each event type but `Invalid` is read back from its name, and `Invalid` from none.
pub proof fn lemma_event_name_roundtrip(t: EventType)
    ensures
        t != EventType::Invalid ==> spec_event_from_name(spec_event_name(t)) == Some(t),
        t == EventType::Invalid ==> spec_event_from_name(spec_event_name(t)) is None,
{
    reveal_strlit("");
    reveal_strlit("user");
    reveal_strlit("mangas");
    reveal_strlit("manga_chapters");
    reveal_strlit("post");
    assert(""@.len() == 0);
    assert("user"@.len() == 4 && "post"@.len() == 4);
    assert("mangas"@.len() == 6);
    assert("manga_chapters"@.len() == 14);
    assert("user"@[0] != "post"@[0]);
    assert("user"@ != "post"@);
}

impl EventType {
    pub open spec fn spec_code(self) -> u8 {
        match self {
            EventType::Invalid => 0,
            EventType::User => 1,
            EventType::Manga => 2,
            EventType::MangaContent => 3,
            EventType::Post => 4,
        }
    }

    /// The type's number.
    pub fn code(&self) -> (r: u8)
        ensures
            r == self.spec_code(),
    {
        match self {
            EventType::Invalid => 0,
            EventType::User => 1,
            EventType::Manga => 2,
            EventType::MangaContent => 3,
            EventType::Post => 4,
        }
    }

    /// The type with the given number, if there is one.
    pub fn from_code(code: u8) -> (r: Option<EventType>)
        ensures
            code <= 4 ==> (r matches Some(t) && t.spec_code() == code),
            code > 4 ==> r is None,
    {
        match code {
            0 => Some(EventType::Invalid),
            1 => Some(EventType::User),
            2 => Some(EventType::Manga),
            3 => Some(EventType::MangaContent),
            4 => Some(EventType::Post),
            _ => None,
        }
    }

    pub fn as_str(&self) -> (r: &'static str)
        ensures
            r@ == spec_event_name(*self),
    {
        match self {
            EventType::Invalid => "",
            EventType::User => "user",
            EventType::Manga => "mangas",
            EventType::MangaContent => "manga_chapters",
            EventType::Post => "post",
        }
    }
}

impl Byteable for EventType {
    type Model = EventType;

    open spec fn model(&self) -> EventType {
        *self
    }

    open spec fn wire_valid(m: EventType) -> bool {
        m != EventType::Invalid
    }

    /// The type's name, written as a string.
    open spec fn spec_encode(m: EventType) -> Result<Seq<u8>, EncodeError> {
        spec_encode_str(spec_event_name(m))
    }

    open spec fn spec_decode(b: Seq<u8>) -> Result<(EventType, nat), DecodeFault> {
        match spec_decode_str(b) {
            Err(f) => Err(f),
            Ok((s, n)) => match spec_event_from_name(s) {
                Some(t) => Ok((t, n)),
                None => Err(
                    DecodeFault::InvalidEnumVariant { variant_value: s, enum_name: "EventType"@ },
                ),
            },
        }
    }

    fn encode(&self, out: &mut Vec<u8>) -> (r: Result<(), EncodeError>) {
        encode_str(self.as_str(), out)
    }

    fn decode(bytes: &[u8], pos: usize) -> (r: Result<(EventType, usize), DecodeError>) {
        let (value, p) = match decode_string(bytes, pos) {
            Ok(v) => v,
            Err(e) => return Err(e),
        };
        let s = value.as_str();
        if str_eq(s, "user") {
            Ok((EventType::User, p))
        } else if str_eq(s, "mangas") {
            Ok((EventType::Manga, p))
        } else if str_eq(s, "manga_chapters") {
            Ok((EventType::MangaContent, p))
        } else if str_eq(s, "post") {
            Ok((EventType::Post, p))
        } else {
            Err(DecodeError::InvalidEnumVariant { variant_value: value, enum_name: "EventType" })
        }
    }

    proof fn lemma_roundtrip(m: EventType, rest: Seq<u8>) {
        lemma_str_roundtrip(spec_event_name(m), rest);
        lemma_event_name_roundtrip(m);
    }

    proof fn lemma_decode_bound(b: Seq<u8>) {
    }
}

/// A change, filed under a topic at a time.
#[derive(Debug, Clone)]
pub struct Event {
    pub timestamp: Timestamp,
    pub event_type: EventType,
    pub topic: Topic,
}


/// The topics of a group of events after `filter`: those it does not hold,
/// or all of them when there is no filter.
pub open spec fn spec_filtered_group(topics: Seq<Topic>, filter: Option<&TopicFilter>) -> Seq<Topic> {
    match filter {
        Some(f) => spec_filter_topics(topics, *f),
        None => topics,
    }
}

/// Drops from each group of topics those that `filter` holds: the events
/// that the asking node says it already has.
pub fn filter_events(groups: Vec<(EventType, Vec<Topic>)>, filter: Option<&TopicFilter>) -> (r: Vec<(EventType, Vec<Topic>)>)
    requires
        filter_usable(filter),
    ensures
        r@.len() == groups@.len(),
        forall|i: int|
            0 <= i < groups@.len() ==> (#[trigger] r@[i]).0 == groups@[i].0 && r@[i].1@
                == spec_filtered_group(groups@[i].1@, filter),
{
    let ghost orig = groups@;
    let mut groups = groups;
    let mut response: Vec<(EventType, Vec<Topic>)> = Vec::new();
    let mut k: usize = 0;
    let n = groups.len();
    while k < n
        invariant
            n == orig.len(),
            k <= n,
            groups@ == orig.skip(k as int),
            response@.len() == k,
            filter_usable(filter),
            forall|i: int|
                0 <= i < k ==> (#[trigger] response@[i]).0 == orig[i].0 && response@[i].1@
                    == spec_filtered_group(orig[i].1@, filter),
        decreases n - k,
    {
        assert(groups@.len() > 0);
        let (event_type, topics) = groups.remove(0);
        proof {
            assert(groups@ =~= orig.skip(k + 1));
        }
        let kept = match filter {
            Some(f) => filter_topics(topics, f),
            None => topics,
        };
        response.push((event_type, kept));
        k = k + 1;
    }
    response
}

/// The number of items that follow for each group of events, leaving out
/// the groups of no valid type.
pub open spec fn spec_decode_streams(events: Seq<(EventType, Vec<Topic>)>) -> Seq<(EventType, u64)> {
    events.filter(|e: (EventType, Vec<Topic>)| e.0 != EventType::Invalid).map_values(
        |e: (EventType, Vec<Topic>)| (e.0, e.1@.len() as u64),
    )
}

/// One stream is announced for each group of a valid type and for no other
/// group; the group at place `i`, when of a valid type, is announced in its
/// place among the valid groups, as its type with its number of topics.
pub proof fn lemma_streams_announce_every_valid_group(events: Seq<(EventType, Vec<Topic>)>, i: int)
    requires
        0 <= i < events.len(),
    ensures
        spec_decode_streams(events).len() == events.filter(|e: (EventType, Vec<Topic>)| e.0 != EventType::Invalid).len(),
        events[i].0 != EventType::Invalid ==> spec_decode_streams(events)[events.take(i).filter(
            |e: (EventType, Vec<Topic>)| e.0 != EventType::Invalid,
        ).len() as int] == (events[i].0, events[i].1@.len() as u64),
{
    let p = |e: (EventType, Vec<Topic>)| e.0 != EventType::Invalid;
    let a = events.take(i);
    let b = events.skip(i);
    let c = events.skip(i + 1);
    assert(events =~= a + b);
    Seq::filter_distributes_over_add(a, b, p);
    assert(b =~= seq![events[i]] + c);
    c.lemma_filter_prepend(events[i], p);
    if events[i].0 != EventType::Invalid {
        assert(events.filter(p) == a.filter(p) + (seq![events[i]] + c.filter(p)));
        assert(events.filter(p)[a.filter(p).len() as int] == events[i]);
    }
}

/// Counts the topics of each group of events, leaving out the groups of no valid type.
pub fn decode_streams(events: &Vec<(EventType, Vec<Topic>)>) -> (r: Vec<(EventType, u64)>)
    ensures
        r@ == spec_decode_streams(events@),
{
    let ghost pred = |e: (EventType, Vec<Topic>)| e.0 != EventType::Invalid;
    let ghost f = |e: (EventType, Vec<Topic>)| (e.0, e.1@.len() as u64);
    let mut out: Vec<(EventType, u64)> = Vec::new();
    let mut i: usize = 0;
    assert(events@.take(0) =~= Seq::<(EventType, Vec<Topic>)>::empty());
    assert(events@.take(0).filter(pred).map_values(f) =~= Seq::<(EventType, u64)>::empty());
    while i < events.len()
        invariant
            i <= events@.len(),
            pred == (|e: (EventType, Vec<Topic>)| e.0 != EventType::Invalid),
            f == (|e: (EventType, Vec<Topic>)| (e.0, e.1@.len() as u64)),
            out@ == events@.take(i as int).filter(pred).map_values(f),
        decreases events@.len() - i,
    {
        let ghost prev = events@.take(i as int).filter(pred);
        proof {
            assert(events@.take(i + 1) =~= events@.take(i as int).push(events@[i as int]));
            events@.take(i as int).lemma_filter_push(events@[i as int], pred);
        }
        let event_type = events[i].0;
        if event_type != EventType::Invalid {
            let len = events[i].1.len() as u64;
            out.push((event_type, len));
            assert(prev.push(events@[i as int]).map_values(f) =~= prev.map_values(f).push(f(events@[i as int])));
        }
        i = i + 1;
    }
    assert(events@.take(events@.len() as int) =~= events@);
    out
}


/// The event recorded when an index is stored at `now`.
pub fn index_event<T: IndexTag>(index: &Index<T>, now: Timestamp) -> (r: Event)
    ensures
        r.timestamp == now,
        r.event_type == T::spec_event_type(),
        r.topic@ == index.spec_hash(),
{
    Event { timestamp: now, event_type: T::event_type(), topic: Topic::from_index(index) }
}

/// The event recorded when a content is stored at `now`.
pub fn content_event<T: IndexTag>(content: &Content<T>, now: Timestamp) -> (r: Event)
    ensures
        r.timestamp == now,
        r.event_type == T::spec_content_event_type(),
        r.topic@ == content.spec_signature(),
{
    Event { timestamp: now, event_type: T::content_event_type(), topic: Topic::from_content(content) }
}

/// The indexes of `indexes` that `filter` does not hold (by their topic), in their order.
pub fn filter_indexes<T: IndexTag>(indexes: Vec<Index<T>>, filter: Option<&TopicFilter>) -> (r: Vec<Index<T>>)
    requires
        filter_usable(filter),
    ensures
        r@.map_values(|i: Index<T>| i.model()) == match filter {
            Some(f) => indexes@.filter(|i: Index<T>| !bloom_members(*f).contains(i.spec_hash())).map_values(
                |i: Index<T>| i.model(),
            ),
            None => indexes@.map_values(|i: Index<T>| i.model()),
        },
{
    let f = match filter {
        None => return indexes,
        Some(f) => f,
    };
    let ghost pred = |i: Index<T>| !bloom_members(*f).contains(i.spec_hash());
    let ghost orig = indexes@;
    let mut indexes = indexes;
    let mut kept: Vec<Index<T>> = Vec::new();
    let n = indexes.len();
    let mut k: usize = 0;
    assert(orig.take(0) =~= Seq::<Index<T>>::empty());
    assert(kept@.map_values(|i: Index<T>| i.model()) =~= orig.take(0).filter(pred).map_values(|i: Index<T>| i.model()));
    while k < n
        invariant
            n == orig.len(),
            k <= n,
            indexes@ == orig.skip(k as int),
            pred == (|i: Index<T>| !bloom_members(*f).contains(i.spec_hash())),
            bloom_num_bits(*f) > 0,
            kept@.map_values(|i: Index<T>| i.model()) == orig.take(k as int).filter(pred).map_values(
                |i: Index<T>| i.model(),
            ),
        decreases n - k,
    {
        assert(indexes@.len() > 0);
        let index = indexes.remove(0);
        proof {
            assert(indexes@ =~= orig.skip(k + 1));
            assert(orig.take(k + 1) =~= orig.take(k as int).push(orig[k as int]));
            orig.take(k as int).lemma_filter_push(orig[k as int], pred);
        }
        let ghost before = kept@.map_values(|i: Index<T>| i.model());
        let ghost prev = orig.take(k as int).filter(pred);
        let topic = Topic::from_index(&index);
        if !bloom_contains(f, &topic) {
            let ghost m = index.model();
            kept.push(index);
            assert(kept@.map_values(|i: Index<T>| i.model()) =~= before.push(m));
            assert(prev.push(orig[k as int]).map_values(|i: Index<T>| i.model()) =~= prev.map_values(|i: Index<T>| i.model()).push(m));
        }
        k = k + 1;
    }
    assert(orig.take(n as int) =~= orig);
    kept
}

/// The contents of `contents` that `filter` does not hold (by their topic), in their order.
pub fn filter_contents<T: IndexTag>(contents: Vec<Content<T>>, filter: Option<&TopicFilter>) -> (r: Vec<Content<T>>)
    requires
        filter_usable(filter),
    ensures
        r@.map_values(|i: Content<T>| i.model()) == match filter {
            Some(f) => contents@.filter(|i: Content<T>| !bloom_members(*f).contains(i.spec_signature())).map_values(
                |i: Content<T>| i.model(),
            ),
            None => contents@.map_values(|i: Content<T>| i.model()),
        },
{
    let f = match filter {
        None => return contents,
        Some(f) => f,
    };
    let ghost pred = |i: Content<T>| !bloom_members(*f).contains(i.spec_signature());
    let ghost orig = contents@;
    let mut contents = contents;
    let mut kept: Vec<Content<T>> = Vec::new();
    let n = contents.len();
    let mut k: usize = 0;
    assert(orig.take(0) =~= Seq::<Content<T>>::empty());
    assert(kept@.map_values(|i: Content<T>| i.model()) =~= orig.take(0).filter(pred).map_values(|i: Content<T>| i.model()));
    while k < n
        invariant
            n == orig.len(),
            k <= n,
            contents@ == orig.skip(k as int),
            pred == (|i: Content<T>| !bloom_members(*f).contains(i.spec_signature())),
            bloom_num_bits(*f) > 0,
            kept@.map_values(|i: Content<T>| i.model()) == orig.take(k as int).filter(pred).map_values(
                |i: Content<T>| i.model(),
            ),
        decreases n - k,
    {
        assert(contents@.len() > 0);
        let index = contents.remove(0);
        proof {
            assert(contents@ =~= orig.skip(k + 1));
            assert(orig.take(k + 1) =~= orig.take(k as int).push(orig[k as int]));
            orig.take(k as int).lemma_filter_push(orig[k as int], pred);
        }
        let ghost before = kept@.map_values(|i: Content<T>| i.model());
        let ghost prev = orig.take(k as int).filter(pred);
        let topic = Topic::from_content(&index);
        if !bloom_contains(f, &topic) {
            let ghost m = index.model();
            kept.push(index);
            assert(kept@.map_values(|i: Content<T>| i.model()) =~= before.push(m));
            assert(prev.push(orig[k as int]).map_values(|i: Content<T>| i.model()) =~= prev.map_values(|i: Content<T>| i.model()).push(m));
        }
        k = k + 1;
    }
    assert(orig.take(n as int) =~= orig);
    kept
}

/// The posts of `posts` that `filter` does not hold (by their topic), in their order.
pub fn filter_posts(posts: Vec<Post>, filter: Option<&TopicFilter>) -> (r: Vec<Post>)
    requires
        filter_usable(filter),
    ensures
        r@.map_values(|i: Post| i.model()) == match filter {
            Some(f) => posts@.filter(|i: Post| !bloom_members(*f).contains(i.signature@)).map_values(
                |i: Post| i.model(),
            ),
            None => posts@.map_values(|i: Post| i.model()),
        },
{
    let f = match filter {
        None => return posts,
        Some(f) => f,
    };
    let ghost pred = |i: Post| !bloom_members(*f).contains(i.signature@);
    let ghost orig = posts@;
    let mut posts = posts;
    let mut kept: Vec<Post> = Vec::new();
    let n = posts.len();
    let mut k: usize = 0;
    assert(orig.take(0) =~= Seq::<Post>::empty());
    assert(kept@.map_values(|i: Post| i.model()) =~= orig.take(0).filter(pred).map_values(|i: Post| i.model()));
    while k < n
        invariant
            n == orig.len(),
            k <= n,
            posts@ == orig.skip(k as int),
            pred == (|i: Post| !bloom_members(*f).contains(i.signature@)),
            bloom_num_bits(*f) > 0,
            kept@.map_values(|i: Post| i.model()) == orig.take(k as int).filter(pred).map_values(
                |i: Post| i.model(),
            ),
        decreases n - k,
    {
        assert(posts@.len() > 0);
        let index = posts.remove(0);
        proof {
            assert(posts@ =~= orig.skip(k + 1));
            assert(orig.take(k + 1) =~= orig.take(k as int).push(orig[k as int]));
            orig.take(k as int).lemma_filter_push(orig[k as int], pred);
        }
        let ghost before = kept@.map_values(|i: Post| i.model());
        let ghost prev = orig.take(k as int).filter(pred);
        let topic = Topic::from_post(&index);
        if !bloom_contains(f, &topic) {
            let ghost m = index.model();
            kept.push(index);
            assert(kept@.map_values(|i: Post| i.model()) =~= before.push(m));
            assert(prev.push(orig[k as int]).map_values(|i: Post| i.model()) =~= prev.map_values(|i: Post| i.model()).push(m));
        }
        k = k + 1;
    }
    assert(orig.take(n as int) =~= orig);
    kept
}


/// `filter_events` with a filter received as it is: `None` when the filter
/// has no bits to test (one that could answer nothing).
pub fn filter_events_checked(groups: Vec<(EventType, Vec<Topic>)>, filter: Option<TopicFilter>) -> (r: Option<
    Vec<(EventType, Vec<Topic>)>,
>)
    ensures
        r is None <==> (filter matches Some(f) && bloom_num_bits(f) == 0),
        r matches Some(v) ==> v@.len() == groups@.len() && forall|i: int|
            0 <= i < groups@.len() ==> (#[trigger] v@[i]).0 == groups@[i].0 && v@[i].1@ == match filter {
                Some(f) => spec_filter_topics(groups@[i].1@, f),
                None => groups@[i].1@,
            },
{
    match filter {
        None => Some(filter_events(groups, None)),
        Some(f) => match TopicFilter::checked(f) {
            None => None,
            Some(f) => Some(filter_events(groups, Some(&f))),
        },
    }
}

/// `filter_indexes` with a filter received as it is: `None` when the filter
/// has no bits to test.
pub fn filter_indexes_checked<T: IndexTag>(indexes: Vec<Index<T>>, filter: Option<TopicFilter>) -> (r: Option<Vec<Index<T>>>)
    ensures
        r is None <==> (filter matches Some(f) && bloom_num_bits(f) == 0),
        r matches Some(v) ==> v@.map_values(|i: Index<T>| i.model()) == match filter {
            Some(f) => indexes@.filter(|i: Index<T>| !bloom_members(f).contains(i.spec_hash())).map_values(
                |i: Index<T>| i.model(),
            ),
            None => indexes@.map_values(|i: Index<T>| i.model()),
        },
{
    match filter {
        None => Some(filter_indexes(indexes, None)),
        Some(f) => match TopicFilter::checked(f) {
            None => None,
            Some(f) => Some(filter_indexes(indexes, Some(&f))),
        },
    }
}

/// `filter_contents` with a filter received as it is: `None` when the filter
/// has no bits to test.
pub fn filter_contents_checked<T: IndexTag>(contents: Vec<Content<T>>, filter: Option<TopicFilter>) -> (r: Option<
    Vec<Content<T>>,
>)
    ensures
        r is None <==> (filter matches Some(f) && bloom_num_bits(f) == 0),
        r matches Some(v) ==> v@.map_values(|i: Content<T>| i.model()) == match filter {
            Some(f) => contents@.filter(|i: Content<T>| !bloom_members(f).contains(i.spec_signature())).map_values(
                |i: Content<T>| i.model(),
            ),
            None => contents@.map_values(|i: Content<T>| i.model()),
        },
{
    match filter {
        None => Some(filter_contents(contents, None)),
        Some(f) => match TopicFilter::checked(f) {
            None => None,
            Some(f) => Some(filter_contents(contents, Some(&f))),
        },
    }
}

/// `filter_posts` with a filter received as it is: `None` when the filter
/// has no bits to test.
pub fn filter_posts_checked(posts: Vec<Post>, filter: Option<TopicFilter>) -> (r: Option<Vec<Post>>)
    ensures
        r is None <==> (filter matches Some(f) && bloom_num_bits(f) == 0),
        r matches Some(v) ==> v@.map_values(|i: Post| i.model()) == match filter {
            Some(f) => posts@.filter(|i: Post| !bloom_members(f).contains(i.signature@)).map_values(
                |i: Post| i.model(),
            ),
            None => posts@.map_values(|i: Post| i.model()),
        },
{
    match filter {
        None => Some(filter_posts(posts, None)),
        Some(f) => match TopicFilter::checked(f) {
            None => None,
            Some(f) => Some(filter_posts(posts, Some(&f))),
        },
    }
}

} // verus!
