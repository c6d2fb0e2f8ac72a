pub mod comments;
pub mod content;
pub mod event;
pub mod index;
pub mod schedule;
pub mod tags;
pub mod to_bytes;
pub mod user;
pub use to_bytes::ToBytes;

use vstd::prelude::*;

use crate::db::user::User;
use crate::errors::{DecodeError, DecodeFault, EncodeError};
use crate::helpers::byteable::Byteable;
use crate::types::{PublicKey, Timestamp};

verus! {

/// A torrent's magnet link.
#[derive(Debug, Clone, PartialEq, Eq, Hash)]
pub struct Magnet(pub String);

impl Byteable for Magnet {
    type Model = Seq<char>;

    open spec fn model(&self) -> Seq<char> {
        self.0@
    }

    open spec fn wire_valid(m: Seq<char>) -> bool {
        true
    }

    /// The link, as a string.
    open spec fn spec_encode(m: Seq<char>) -> Result<Seq<u8>, EncodeError> {
        <String as Byteable>::spec_encode(m)
    }

    open spec fn spec_decode(b: Seq<u8>) -> Result<(Seq<char>, nat), DecodeFault> {
        <String as Byteable>::spec_decode(b)
    }

    fn encode(&self, out: &mut Vec<u8>) -> (r: Result<(), EncodeError>) {
        self.0.encode(out)
    }

    fn decode(bytes: &[u8], pos: usize) -> (r: Result<(Magnet, usize), DecodeError>) {
        match String::decode(bytes, pos) {
            Ok((s, p)) => Ok((Magnet(s), p)),
            Err(e) => Err(e),
        }
    }

    proof fn lemma_roundtrip(m: Seq<char>, rest: Seq<u8>) {
        <String as Byteable>::lemma_roundtrip(m, rest);
    }

    proof fn lemma_decode_bound(b: Seq<u8>) {
        <String as Byteable>::lemma_decode_bound(b);
    }
}

/// A node whose events are all fetched now and then, and when that was last done.
#[derive(Debug, Clone, Copy)]
pub struct FullSyncTarget {
    pub pub_key: PublicKey,
    pub last_sync: Timestamp,
}

impl FullSyncTarget {
    pub fn new(pub_key: PublicKey, last_sync: Timestamp) -> (r: FullSyncTarget)
        ensures
            r.pub_key == pub_key,
            r.last_sync == last_sync,
    {
        FullSyncTarget { pub_key, last_sync }
    }

    /// The target for `user`, never synced yet.
    pub fn from_user(user: &User) -> (r: FullSyncTarget)
        ensures
            r.pub_key@ == user.spec_pub_key(),
            r.last_sync == Timestamp(0),
    {
        FullSyncTarget { pub_key: *user.pub_key(), last_sync: Timestamp::new(0) }
    }
}

/// A page of values, with the number of all of them.
pub struct PaginateResponse<T> {
    pub values: T,
    pub total: usize,
}

/// The number of rows to skip to reach page `page` (counted from 1).
pub fn page_offset(page: usize, per_page: usize) -> (r: usize)
    requires
        page >= 1,
        (page - 1) * per_page <= usize::MAX,
    ensures
        r == (page - 1) * per_page,
{
    (page - 1) * per_page
}

/// The number of pages reported for `total` rows, `per_page` on each:
/// one more than the number of full pages.
pub fn page_count(total: usize, per_page: usize) -> (r: usize)
    requires
        per_page > 0,
        total / per_page + 1 <= usize::MAX,
    ensures
        r == total / per_page + 1,
{
    total / per_page + 1
}


/// Marks a value as belonging to the kind `T` without holding anything of it.
pub struct SurrealPhantom<T>(core::marker::PhantomData<T>);

impl<T> Default for SurrealPhantom<T> {
    fn default() -> (r: SurrealPhantom<T>) {
        SurrealPhantom(core::marker::PhantomData)
    }
}

} // verus!
