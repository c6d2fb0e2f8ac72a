//! The index commands: `manga/get_all_indexes`, `manga/get_indexes` and `manga/get_contents`.
use vstd::prelude::*;

use crate::db::tags::IndexTag;
use crate::errors::{ClientError, DecodeError, DecodeFault, EncodeError};
use crate::helpers::bloom_filter::SerializedFilter;
use crate::helpers::byteable::lemma_skip_skip;
use crate::helpers::byteable::Byteable;
use crate::server::protocol::{AkarekoProtocolResponse, AkarekoStatus, StatusModel, StreamModel};
use crate::types::Timestamp;
use crate::server::handler::{AkarekoProtocolCommandMetadata, CommandsV1};
use crate::db::tags::MangaTag;

verus! {

/// The command that asks a node for all its indexes tagged `I`.
pub struct GetAllIndexes<I: IndexTag>(pub core::marker::PhantomData<I>);

impl AkarekoProtocolCommandMetadata for GetAllIndexes<MangaTag> {
    open spec fn spec_command() -> CommandsV1 {
        CommandsV1::GetAllIndexes
    }

    fn command() -> (r: CommandsV1) {
        CommandsV1::GetAllIndexes
    }
}

/// The command that asks a node for indexes tagged `I` by hash.
pub struct GetIndexes<I: IndexTag>(pub core::marker::PhantomData<I>);

impl AkarekoProtocolCommandMetadata for GetIndexes<MangaTag> {
    open spec fn spec_command() -> CommandsV1 {
        CommandsV1::GetIndexes
    }

    fn command() -> (r: CommandsV1) {
        CommandsV1::GetIndexes
    }
}

/// The command that asks a node for the contents of an index tagged `I`.
pub struct GetContents<I: IndexTag>(pub core::marker::PhantomData<I>);

impl AkarekoProtocolCommandMetadata for GetContents<MangaTag> {
    open spec fn spec_command() -> CommandsV1 {
        CommandsV1::GetContents
    }

    fn command() -> (r: CommandsV1) {
        CommandsV1::GetContents
    }
}


/// Asks for the indexes of a kind received since a time, leaving out those
/// whose topics a filter holds.
pub struct GetAllIndexesRequest {
    tag: String,
    /// Only indexes created or updated after this time.
    timestamp: Option<Timestamp>,
    filter: Option<SerializedFilter>,
}

impl GetAllIndexesRequest {
    pub closed spec fn spec_tag(&self) -> Seq<char> {
        self.tag@
    }

    pub closed spec fn spec_timestamp(&self) -> Option<Timestamp> {
        self.timestamp
    }

    pub closed spec fn spec_filter(&self) -> Option<Seq<u8>> {
        match self.filter {
            Some(f) => Some(f.0@),
            None => None,
        }
    }

    /// The filter the request carries, in its serialized form.
    pub fn filter(&self) -> (r: &Option<SerializedFilter>)
        ensures
            match *r {
                Some(f) => self.spec_filter() == Some(f.0@),
                None => self.spec_filter() is None,
            },
    {
        &self.filter
    }

    pub fn tag(&self) -> (r: &String)
        ensures
            r@ == self.spec_tag(),
    {
        &self.tag
    }

    pub fn timestamp(&self) -> (r: Option<Timestamp>)
        ensures
            r == self.spec_timestamp(),
    {
        self.timestamp
    }

    pub fn new<T: IndexTag>(timestamp: Option<Timestamp>, filter: Option<SerializedFilter>) -> (r: GetAllIndexesRequest)
        ensures
            r.spec_tag() == T::spec_tag(),
            r.spec_timestamp() == timestamp,
            r.spec_filter() == match filter {
                Some(f) => Some(f.0@),
                None => None::<Seq<u8>>,
            },
    {
        GetAllIndexesRequest { tag: String::from_str(T::tag()), timestamp, filter }
    }
}

impl Byteable for GetAllIndexesRequest {
    type Model = (Seq<char>, (Option<i64>, Option<Seq<u8>>));

    open spec fn model(&self) -> (Seq<char>, (Option<i64>, Option<Seq<u8>>)) {
        (self.spec_tag(), (match self.spec_timestamp() { Some(t) => Some(t.0), None => None }, self.spec_filter()))
    }

    open spec fn wire_valid(m: (Seq<char>, (Option<i64>, Option<Seq<u8>>))) -> bool {
        <(String, (Option<Timestamp>, Option<SerializedFilter>)) as Byteable>::wire_valid(m)
    }

    /// The kind's tag, the time and the filter, in that order.
    open spec fn spec_encode(m: (Seq<char>, (Option<i64>, Option<Seq<u8>>))) -> Result<Seq<u8>, EncodeError> {
        <(String, (Option<Timestamp>, Option<SerializedFilter>)) as Byteable>::spec_encode(m)
    }

    open spec fn spec_decode(b: Seq<u8>) -> Result<((Seq<char>, (Option<i64>, Option<Seq<u8>>)), nat), DecodeFault> {
        <(String, (Option<Timestamp>, Option<SerializedFilter>)) as Byteable>::spec_decode(b)
    }

    fn encode(&self, out: &mut Vec<u8>) -> (r: Result<(), EncodeError>) {
        let ghost o0 = out@;
        let r = self.tag.encode(out);
        if r.is_err() {
            return r;
        }
        let ghost o1 = out@;
        let r = self.timestamp.encode(out);
        if r.is_err() {
            return r;
        }
        let ghost o2 = out@;
        let r = self.filter.encode(out);
        if r.is_err() {
            return r;
        }
        proof {
            let e0 = o1.skip(o0.len() as int);
            let e1 = o2.skip(o1.len() as int);
            let e2 = out@.skip(o2.len() as int);
            assert(e0 =~= <String as Byteable>::spec_encode(self.spec_tag())->Ok_0);
            assert(e1 =~= <Option<Timestamp> as Byteable>::spec_encode(match self.spec_timestamp() { Some(t) => Some(t.0), None => None })->Ok_0);
            assert(e2 =~= <Option<SerializedFilter> as Byteable>::spec_encode(self.spec_filter())->Ok_0);
            assert(out@ =~= o0 + (e0 + (e1 + e2)));
        }
        Ok(())
    }

    fn decode(bytes: &[u8], pos: usize) -> (r: Result<(GetAllIndexesRequest, usize), DecodeError>) {
        let (tag, p1) = match <String as Byteable>::decode(bytes, pos) {
            Ok(v) => v,
            Err(e) => return Err(e),
        };
        proof {
            lemma_skip_skip(bytes@, pos as int, p1 - pos);
        }
        let (timestamp, p2) = match <Option<Timestamp> as Byteable>::decode(bytes, p1) {
            Ok(v) => v,
            Err(e) => return Err(e),
        };
        proof {
            lemma_skip_skip(bytes@, p1 as int, p2 - p1);
            lemma_skip_skip(bytes@, pos as int, p2 - pos);
        }
        let (filter, p3) = match <Option<SerializedFilter> as Byteable>::decode(bytes, p2) {
            Ok(v) => v,
            Err(e) => return Err(e),
        };
        Ok((GetAllIndexesRequest { tag, timestamp, filter }, p3))
    }

    proof fn lemma_roundtrip(m: (Seq<char>, (Option<i64>, Option<Seq<u8>>)), rest: Seq<u8>) {
        <(String, (Option<Timestamp>, Option<SerializedFilter>)) as Byteable>::lemma_roundtrip(m, rest);
    }

    proof fn lemma_decode_bound(b: Seq<u8>) {
        <(String, (Option<Timestamp>, Option<SerializedFilter>)) as Byteable>::lemma_decode_bound(b);
    }
}

/// The payload of the answer to `manga/get_all_indexes`: nothing; the indexes follow it.
#[derive(Debug)]
pub struct GetAllIndexesResponse {}

impl Byteable for GetAllIndexesResponse {
    type Model = ();

    open spec fn model(&self) -> () {
        ()
    }

    open spec fn wire_valid(m: ()) -> bool {
        true
    }

    /// Nothing.
    open spec fn spec_encode(m: ()) -> Result<Seq<u8>, EncodeError> {
        Ok(Seq::empty())
    }

    open spec fn spec_decode(b: Seq<u8>) -> Result<((), nat), DecodeFault> {
        Ok(((), 0))
    }

    fn encode(&self, out: &mut Vec<u8>) -> (r: Result<(), EncodeError>) {
        assert(out@ =~= out@ + Seq::<u8>::empty());
        Ok(())
    }

    fn decode(bytes: &[u8], pos: usize) -> (r: Result<(GetAllIndexesResponse, usize), DecodeError>) {
        Ok((GetAllIndexesResponse {}, pos))
    }

    proof fn lemma_roundtrip(m: (), rest: Seq<u8>) {
    }

    proof fn lemma_decode_bound(b: Seq<u8>) {
    }
}

/// Asks for the contents of an index received since a time, leaving out
/// those whose topics a filter holds.
pub struct GetContentsRequest {
    index: crate::types::hash::Hash,
    /// Only contents created or updated after this time.
    after: Option<Timestamp>,
    filter: Option<SerializedFilter>,
}

impl GetContentsRequest {
    pub closed spec fn spec_index(&self) -> Seq<u8> {
        self.index@
    }

    pub closed spec fn spec_after(&self) -> Option<Timestamp> {
        self.after
    }

    pub closed spec fn spec_filter(&self) -> Option<Seq<u8>> {
        match self.filter {
            Some(f) => Some(f.0@),
            None => None,
        }
    }

    /// The filter the request carries, in its serialized form.
    pub fn filter(&self) -> (r: &Option<SerializedFilter>)
        ensures
            match *r {
                Some(f) => self.spec_filter() == Some(f.0@),
                None => self.spec_filter() is None,
            },
    {
        &self.filter
    }

    pub fn index(&self) -> (r: &crate::types::hash::Hash)
        ensures
            r@ == self.spec_index(),
    {
        &self.index
    }

    pub fn after(&self) -> (r: Option<Timestamp>)
        ensures
            r == self.spec_after(),
    {
        self.after
    }

    pub fn new(index: crate::types::hash::Hash, after: Option<Timestamp>, filter: Option<SerializedFilter>) -> (r: GetContentsRequest)
        ensures
            r.spec_index() == index@,
            r.spec_after() == after,
            r.spec_filter() == match filter {
                Some(f) => Some(f.0@),
                None => None::<Seq<u8>>,
            },
    {
        GetContentsRequest { index, after, filter }
    }
}

impl Byteable for GetContentsRequest {
    type Model = (Seq<u8>, (Option<i64>, Option<Seq<u8>>));

    open spec fn model(&self) -> (Seq<u8>, (Option<i64>, Option<Seq<u8>>)) {
        (self.spec_index(), (match self.spec_after() { Some(t) => Some(t.0), None => None }, self.spec_filter()))
    }

    open spec fn wire_valid(m: (Seq<u8>, (Option<i64>, Option<Seq<u8>>))) -> bool {
        <(crate::types::hash::Hash, (Option<Timestamp>, Option<SerializedFilter>)) as Byteable>::wire_valid(m)
    }

    /// The index's hash, the time and the filter, in that order.
    open spec fn spec_encode(m: (Seq<u8>, (Option<i64>, Option<Seq<u8>>))) -> Result<Seq<u8>, EncodeError> {
        <(crate::types::hash::Hash, (Option<Timestamp>, Option<SerializedFilter>)) as Byteable>::spec_encode(m)
    }

    open spec fn spec_decode(b: Seq<u8>) -> Result<((Seq<u8>, (Option<i64>, Option<Seq<u8>>)), nat), DecodeFault> {
        <(crate::types::hash::Hash, (Option<Timestamp>, Option<SerializedFilter>)) as Byteable>::spec_decode(b)
    }

    fn encode(&self, out: &mut Vec<u8>) -> (r: Result<(), EncodeError>) {
        let ghost o0 = out@;
        let r = self.index.encode(out);
        if r.is_err() {
            return r;
        }
        let ghost o1 = out@;
        let r = self.after.encode(out);
        if r.is_err() {
            return r;
        }
        let ghost o2 = out@;
        let r = self.filter.encode(out);
        if r.is_err() {
            return r;
        }
        proof {
            let e0 = o1.skip(o0.len() as int);
            let e1 = o2.skip(o1.len() as int);
            let e2 = out@.skip(o2.len() as int);
            assert(e0 =~= <crate::types::hash::Hash as Byteable>::spec_encode(self.spec_index())->Ok_0);
            assert(e1 =~= <Option<Timestamp> as Byteable>::spec_encode(match self.spec_after() { Some(t) => Some(t.0), None => None })->Ok_0);
            assert(e2 =~= <Option<SerializedFilter> as Byteable>::spec_encode(self.spec_filter())->Ok_0);
            assert(out@ =~= o0 + (e0 + (e1 + e2)));
        }
        Ok(())
    }

    fn decode(bytes: &[u8], pos: usize) -> (r: Result<(GetContentsRequest, usize), DecodeError>) {
        let (index, p1) = match <crate::types::hash::Hash as Byteable>::decode(bytes, pos) {
            Ok(v) => v,
            Err(e) => return Err(e),
        };
        proof {
            lemma_skip_skip(bytes@, pos as int, p1 - pos);
        }
        let (after, p2) = match <Option<Timestamp> as Byteable>::decode(bytes, p1) {
            Ok(v) => v,
            Err(e) => return Err(e),
        };
        proof {
            lemma_skip_skip(bytes@, p1 as int, p2 - p1);
            lemma_skip_skip(bytes@, pos as int, p2 - pos);
        }
        let (filter, p3) = match <Option<SerializedFilter> as Byteable>::decode(bytes, p2) {
            Ok(v) => v,
            Err(e) => return Err(e),
        };
        Ok((GetContentsRequest { index, after, filter }, p3))
    }

    proof fn lemma_roundtrip(m: (Seq<u8>, (Option<i64>, Option<Seq<u8>>)), rest: Seq<u8>) {
        <(crate::types::hash::Hash, (Option<Timestamp>, Option<SerializedFilter>)) as Byteable>::lemma_roundtrip(m, rest);
    }

    proof fn lemma_decode_bound(b: Seq<u8>) {
        <(crate::types::hash::Hash, (Option<Timestamp>, Option<SerializedFilter>)) as Byteable>::lemma_decode_bound(b);
    }
}

/// The payload of the answer to `manga/get_contents`: nothing; the contents follow it.
#[derive(Debug)]
pub struct GetContentsResponse {}

impl Byteable for GetContentsResponse {
    type Model = ();

    open spec fn model(&self) -> () {
        ()
    }

    open spec fn wire_valid(m: ()) -> bool {
        true
    }

    /// Nothing.
    open spec fn spec_encode(m: ()) -> Result<Seq<u8>, EncodeError> {
        Ok(Seq::empty())
    }

    open spec fn spec_decode(b: Seq<u8>) -> Result<((), nat), DecodeFault> {
        Ok(((), 0))
    }

    fn encode(&self, out: &mut Vec<u8>) -> (r: Result<(), EncodeError>) {
        assert(out@ =~= out@ + Seq::<u8>::empty());
        Ok(())
    }

    fn decode(bytes: &[u8], pos: usize) -> (r: Result<(GetContentsResponse, usize), DecodeError>) {
        Ok((GetContentsResponse {}, pos))
    }

    proof fn lemma_roundtrip(m: (), rest: Seq<u8>) {
    }

    proof fn lemma_decode_bound(b: Seq<u8>) {
    }
}

/// Asks for the indexes with the given hashes.
#[derive(Debug)]
pub struct GetIndexesRequest {
    indexes: Vec<crate::types::hash::Hash>,
}

impl GetIndexesRequest {
    pub closed spec fn spec_indexes(&self) -> Seq<Seq<u8>> {
        self.indexes@.map_values(|h: crate::types::hash::Hash| h@)
    }

    pub fn indexes(&self) -> (r: &Vec<crate::types::hash::Hash>)
        ensures
            r@.map_values(|h: crate::types::hash::Hash| h@) == self.spec_indexes(),
    {
        &self.indexes
    }

    pub fn new(indexes: Vec<crate::types::hash::Hash>) -> (r: GetIndexesRequest)
        ensures
            r.spec_indexes() == indexes@.map_values(|h: crate::types::hash::Hash| h@),
    {
        GetIndexesRequest { indexes }
    }
}

impl Byteable for GetIndexesRequest {
    type Model = Seq<Seq<u8>>;

    open spec fn model(&self) -> Seq<Seq<u8>> {
        self.spec_indexes()
    }

    open spec fn wire_valid(m: Seq<Seq<u8>>) -> bool {
        <Vec<crate::types::hash::Hash> as Byteable>::wire_valid(m)
    }

    /// The hashes, as a list.
    open spec fn spec_encode(m: Seq<Seq<u8>>) -> Result<Seq<u8>, EncodeError> {
        <Vec<crate::types::hash::Hash> as Byteable>::spec_encode(m)
    }

    open spec fn spec_decode(b: Seq<u8>) -> Result<(Seq<Seq<u8>>, nat), DecodeFault> {
        <Vec<crate::types::hash::Hash> as Byteable>::spec_decode(b)
    }

    fn encode(&self, out: &mut Vec<u8>) -> (r: Result<(), EncodeError>) {
        assert(self.indexes@.map_values(|x: crate::types::hash::Hash| x.model()) =~= self.spec_indexes());
        self.indexes.encode(out)
    }

    fn decode(bytes: &[u8], pos: usize) -> (r: Result<(GetIndexesRequest, usize), DecodeError>) {
        match <Vec<crate::types::hash::Hash> as Byteable>::decode(bytes, pos) {
            Ok((indexes, p)) => {
                let r = GetIndexesRequest { indexes };
                assert(r.indexes@.map_values(|x: crate::types::hash::Hash| x.model()) =~= r.spec_indexes());
                Ok((r, p))
            },
            Err(e) => Err(e),
        }
    }

    proof fn lemma_roundtrip(m: Seq<Seq<u8>>, rest: Seq<u8>) {
        <Vec<crate::types::hash::Hash> as Byteable>::lemma_roundtrip(m, rest);
    }

    proof fn lemma_decode_bound(b: Seq<u8>) {
        <Vec<crate::types::hash::Hash> as Byteable>::lemma_decode_bound(b);
    }
}

/// The payload of the answer to `manga/get_indexes`: nothing; the indexes follow it.
#[derive(Debug)]
pub struct GetIndexesResponse {}

impl Byteable for GetIndexesResponse {
    type Model = ();

    open spec fn model(&self) -> () {
        ()
    }

    open spec fn wire_valid(m: ()) -> bool {
        true
    }

    /// Nothing.
    open spec fn spec_encode(m: ()) -> Result<Seq<u8>, EncodeError> {
        Ok(Seq::empty())
    }

    open spec fn spec_decode(b: Seq<u8>) -> Result<((), nat), DecodeFault> {
        Ok(((), 0))
    }

    fn encode(&self, out: &mut Vec<u8>) -> (r: Result<(), EncodeError>) {
        assert(out@ =~= out@ + Seq::<u8>::empty());
        Ok(())
    }

    fn decode(bytes: &[u8], pos: usize) -> (r: Result<(GetIndexesResponse, usize), DecodeError>) {
        Ok((GetIndexesResponse {}, pos))
    }

    proof fn lemma_roundtrip(m: (), rest: Seq<u8>) {
    }

    proof fn lemma_decode_bound(b: Seq<u8>) {
    }
}

/// The answer to a listing command, given what the node's store returned:
/// `payload` and then the items found, or an internal error when the store failed.
pub fn list_answer<P: Byteable, D: Byteable>(found: Option<Vec<D>>, payload: P) -> (r: AkarekoProtocolResponse<P, D>)
    ensures
        match found {
            Some(items) => {
                &&& r.spec_status() == AkarekoStatus::Success
                &&& r.spec_payload() == Some(payload)
                &&& r.spec_data()@ == StreamModel::Items(items@.map_values(|x: D| x.model()))
            },
            None => r.spec_status()@ == StatusModel::InternalError("Database error"@) && r.spec_payload() is None,
        },
{
    match found {
        Some(items) => AkarekoProtocolResponse::ok_with_data(payload, items),
        None => AkarekoProtocolResponse::internal_error(String::from_str("Database error")),
    }
}


/// Whether a listing was answered with a success; if not, its status as an error.
pub fn check_listing<P: Byteable, D: Byteable>(res: &AkarekoProtocolResponse<P, D>) -> (r: Result<(), ClientError>)
    ensures
        r is Ok <==> res.spec_status() is Success,
        r matches Err(e) ==> (e matches ClientError::UnexpectedResponseCode { status } && status@ == res.spec_status()@),
{
    if !res.status().is_ok() {
        return Err(ClientError::UnexpectedResponseCode { status: res.status().clone() });
    }
    Ok(())
}

} // verus!
