//! Indexes: the signed entries (a manga, ...) that contents belong to.
use vstd::prelude::*;

use crate::crypto::{ed25519_public_key_of, ed25519_signature_of, ed25519_verifies, signs_verifiably, sha512_of};
use crate::db::tags::IndexTag;
use crate::errors::{DecodeError, DecodeFault, EncodeError};
use crate::helpers::byteable::{lemma_skip_skip, Byteable};
use crate::helpers::codec::{le32_signed, put_bytes, put_i32_le};
use crate::helpers::{sanitized, SanitizedString};
use crate::helpers::strings::{decimal, decimal_string};
use crate::types::{PrivateKey, PublicKey, Signature, Timestamp, Topic};

verus! {

/// The bytes that name an index and that its signature covers: the kind's
/// tag, the sanitized title and the release date (little-endian).
pub open spec fn index_id_bytes(tag: Seq<char>, title: Seq<char>, release_date: i32) -> Seq<u8> {
    vstd::utf8::encode_utf8(tag) + vstd::utf8::encode_utf8(sanitized(title)) + le32_signed(release_date)
}

/// An index of the kind `T`, named by the hash of its kind, title and
/// release date, and signed by its source.
#[derive(Debug)]
pub struct Index<T: IndexTag> {
    hash: crate::types::hash::Hash,
    title: String,
    release_date: i32,
    source: PublicKey,
    signature: Signature,
    _phantom: core::marker::PhantomData<T>,
}

impl<T: IndexTag> Index<T> {
    pub closed spec fn spec_hash(&self) -> Seq<u8> {
        self.hash@
    }

    pub closed spec fn spec_title(&self) -> Seq<char> {
        self.title@
    }

    pub closed spec fn spec_release_date(&self) -> i32 {
        self.release_date
    }

    pub closed spec fn spec_source(&self) -> Seq<u8> {
        self.source@
    }

    pub closed spec fn spec_signature(&self) -> Seq<u8> {
        self.signature@
    }

    /// The bytes that name this index and that its signature covers.
    pub open spec fn spec_id_bytes(&self) -> Seq<u8> {
        index_id_bytes(T::spec_tag(), self.spec_title(), self.spec_release_date())
    }

    pub fn new(title: String, release_date: i32, source: PublicKey, signature: Signature) -> (r: Index<T>)
        ensures
            r.spec_hash() == sha512_of(index_id_bytes(T::spec_tag(), title@, release_date)),
            r.spec_title() == title@,
            r.spec_release_date() == release_date,
            r.spec_source() == source@,
            r.spec_signature() == signature@,
    {
        let id = Self::id_bytes(&title, release_date);
        let hash = crate::types::hash::Hash::digest(id.as_slice());
        Index { hash, title, release_date, source, signature, _phantom: core::marker::PhantomData }
    }

    /// The same index, as one of another kind.
    pub fn transmute<T2: IndexTag>(self) -> (r: Index<T2>)
        ensures
            r.spec_hash() == self.spec_hash(),
            r.spec_title() == self.spec_title(),
            r.spec_release_date() == self.spec_release_date(),
            r.spec_source() == self.spec_source(),
            r.spec_signature() == self.spec_signature(),
    {
        Index {
            hash: self.hash,
            title: self.title,
            release_date: self.release_date,
            source: self.source,
            signature: self.signature,
            _phantom: core::marker::PhantomData,
        }
    }

    fn id_bytes(title: &String, release_date: i32) -> (r: Vec<u8>)
        ensures
            r@ == index_id_bytes(T::spec_tag(), title@, release_date),
    {
        let sanitized_title = SanitizedString::new(title);
        let mut bytes: Vec<u8> = Vec::new();
        put_bytes(&mut bytes, T::tag().as_bytes());
        put_bytes(&mut bytes, sanitized_title.as_bytes());
        put_i32_le(&mut bytes, release_date);
        bytes
    }

    /// An index whose source is the owner of `priv_key`, signed with it.
    pub fn new_signed(title: String, release_date: i32, priv_key: &PrivateKey) -> (r: Index<T>)
        ensures
            r.spec_hash() == sha512_of(index_id_bytes(T::spec_tag(), title@, release_date)),
            r.spec_title() == title@,
            r.spec_release_date() == release_date,
            r.spec_source() == ed25519_public_key_of(priv_key@),
            r.spec_signature() == ed25519_signature_of(priv_key@, index_id_bytes(T::spec_tag(), title@, release_date)),
            signs_verifiably(priv_key@, r.spec_id_bytes()) ==> ed25519_verifies(
                r.spec_source(),
                r.spec_id_bytes(),
                r.spec_signature(),
            ),
    {
        let mut index = Self::new(title, release_date, priv_key.public_key(), Signature::empty());
        index.sign(priv_key);
        index
    }

    fn sign(&mut self, priv_key: &PrivateKey)
        ensures
            final(self).hash == old(self).hash,
            final(self).title == old(self).title,
            final(self).release_date == old(self).release_date,
            final(self).source == old(self).source,
            final(self).signature@ == ed25519_signature_of(priv_key@, old(self).spec_id_bytes()),
            signs_verifiably(priv_key@, old(self).spec_id_bytes()) ==> ed25519_verifies(
                ed25519_public_key_of(priv_key@),
                old(self).spec_id_bytes(),
                final(self).signature@,
            ),
    {
        let to_sign = Self::id_bytes(&self.title, self.release_date);
        self.signature = priv_key.sign(to_sign.as_slice());
    }

    /// Whether the signature is that of the source over the index's name.
    pub fn verify(&self) -> (r: bool)
        ensures
            r == ed25519_verifies(self.spec_source(), self.spec_id_bytes(), self.spec_signature()),
    {
        let to_verify = Self::id_bytes(&self.title, self.release_date);
        self.source.verify(to_verify.as_slice(), &self.signature)
    }

    pub fn hash(&self) -> (r: &crate::types::hash::Hash)
        ensures
            r@ == self.spec_hash(),
    {
        &self.hash
    }

    pub fn title(&self) -> (r: &String)
        ensures
            r@ == self.spec_title(),
    {
        &self.title
    }

    pub fn release_date(&self) -> (r: i32)
        ensures
            r == self.spec_release_date(),
    {
        self.release_date
    }

    pub fn source(&self) -> (r: &PublicKey)
        ensures
            r@ == self.spec_source(),
    {
        &self.source
    }

    pub fn signature(&self) -> (r: &Signature)
        ensures
            r@ == self.spec_signature(),
    {
        &self.signature
    }
}

impl<T: IndexTag> Clone for Index<T> {
    fn clone(&self) -> (r: Self)
        ensures
            r.spec_hash() == self.spec_hash(),
            r.spec_title() == self.spec_title(),
            r.spec_release_date() == self.spec_release_date(),
            r.spec_source() == self.spec_source(),
            r.spec_signature() == self.spec_signature(),
    {
        Index {
            hash: self.hash,
            title: self.title.clone(),
            release_date: self.release_date,
            source: self.source,
            signature: self.signature,
            _phantom: core::marker::PhantomData,
        }
    }
}

/// Titles that sanitize alike, with one release date, name the same index.
pub proof fn lemma_index_name_ignores_spelling(tag: Seq<char>, t1: Seq<char>, t2: Seq<char>, release_date: i32)
    requires
        sanitized(t1) == sanitized(t2),
    ensures
        index_id_bytes(tag, t1, release_date) == index_id_bytes(tag, t2, release_date),
        sha512_of(index_id_bytes(tag, t1, release_date)) == sha512_of(index_id_bytes(tag, t2, release_date)),
{
}

impl Topic {
    /// The topic of an index: its hash.
    pub fn from_index<T: IndexTag>(index: &Index<T>) -> (r: Topic)
        ensures
            r@ == index.spec_hash(),
    {
        Topic::from_bytes(index.hash().to_inner())
    }
}

/// What the wire format holds of an index: hash, title, release date, source and signature.
pub type IndexModel = (Seq<u8>, (Seq<char>, (i32, (Seq<u8>, Seq<u8>))));

type IndexWire = (crate::types::hash::Hash, (String, (i32, (PublicKey, Signature))));

impl<T: IndexTag> Byteable for Index<T> {
    type Model = IndexModel;

    open spec fn wire_valid(m: IndexModel) -> bool {
        <IndexWire as Byteable>::wire_valid(m)
    }

    open spec fn model(&self) -> IndexModel {
        (self.spec_hash(), (self.spec_title(), (self.spec_release_date(), (self.spec_source(), self.spec_signature()))))
    }

    /// Hash, title, release date, source and signature, in that order.
    open spec fn spec_encode(m: IndexModel) -> Result<Seq<u8>, EncodeError> {
        <IndexWire as Byteable>::spec_encode(m)
    }

    open spec fn spec_decode(b: Seq<u8>) -> Result<(IndexModel, nat), DecodeFault> {
        <IndexWire as Byteable>::spec_decode(b)
    }

    fn encode(&self, out: &mut Vec<u8>) -> (r: Result<(), EncodeError>) {
        let ghost o0 = out@;
        let r = self.hash.encode(out);
        if r.is_err() {
            return r;
        }
        let ghost o1 = out@;
        let r = self.title.encode(out);
        if r.is_err() {
            return r;
        }
        let ghost o2 = out@;
        let r = self.release_date.encode(out);
        if r.is_err() {
            return r;
        }
        let ghost o3 = out@;
        let r = self.source.encode(out);
        if r.is_err() {
            return r;
        }
        let ghost o4 = out@;
        let r = self.signature.encode(out);
        if r.is_err() {
            return r;
        }
        proof {
            let e0 = o1.skip(o0.len() as int);
            let e1 = o2.skip(o1.len() as int);
            let e2 = o3.skip(o2.len() as int);
            let e3 = o4.skip(o3.len() as int);
            let e4 = out@.skip(o4.len() as int);
            assert(e0 =~= <crate::types::hash::Hash as Byteable>::spec_encode(self.hash@)->Ok_0);
            assert(e1 =~= <String as Byteable>::spec_encode(self.title@)->Ok_0);
            assert(e2 =~= <i32 as Byteable>::spec_encode(self.release_date)->Ok_0);
            assert(e3 =~= <PublicKey as Byteable>::spec_encode(self.source@)->Ok_0);
            assert(e4 =~= <Signature as Byteable>::spec_encode(self.signature@)->Ok_0);
            assert(out@ =~= o0 + (e0 + (e1 + (e2 + (e3 + e4)))));
        }
        Ok(())
    }

    fn decode(bytes: &[u8], pos: usize) -> (r: Result<(Index<T>, usize), DecodeError>) {
        let (hash, p1) = match crate::types::hash::Hash::decode(bytes, pos) {
            Ok(v) => v,
            Err(e) => return Err(e),
        };
        proof {
            lemma_skip_skip(bytes@, pos as int, p1 - pos);
        }
        let (title, p2) = match String::decode(bytes, p1) {
            Ok(v) => v,
            Err(e) => return Err(e),
        };
        proof {
            lemma_skip_skip(bytes@, p1 as int, p2 - p1);
            lemma_skip_skip(bytes@, pos as int, p2 - pos);
        }
        let (release_date, p3) = match i32::decode(bytes, p2) {
            Ok(v) => v,
            Err(e) => return Err(e),
        };
        proof {
            lemma_skip_skip(bytes@, p2 as int, p3 - p2);
            lemma_skip_skip(bytes@, p1 as int, p3 - p1);
        }
        let (source, p4) = match PublicKey::decode(bytes, p3) {
            Ok(v) => v,
            Err(e) => return Err(e),
        };
        proof {
            lemma_skip_skip(bytes@, p3 as int, p4 - p3);
            lemma_skip_skip(bytes@, p2 as int, p4 - p2);
        }
        let (signature, p5) = match Signature::decode(bytes, p4) {
            Ok(v) => v,
            Err(e) => return Err(e),
        };
        Ok((Index { hash, title, release_date, source, signature, _phantom: core::marker::PhantomData }, p5))
    }

    proof fn lemma_roundtrip(m: IndexModel, rest: Seq<u8>) {
        <IndexWire as Byteable>::lemma_roundtrip(m, rest);
    }

    proof fn lemma_decode_bound(b: Seq<u8>) {
        <IndexWire as Byteable>::lemma_decode_bound(b);
    }
}


/// How far the publication of an indexed work has come.
#[derive(Debug, Clone, Copy, PartialEq, Eq, Structural)]
pub enum IndexStatus {
    Completed,
    Hiatus,
    Cancelled,
    Releasing,
    Unknown,
}

impl Default for IndexStatus {
    fn default() -> (r: IndexStatus)
        ensures
            r == IndexStatus::Unknown,
    {
        IndexStatus::Unknown
    }
}

impl IndexStatus {
    pub open spec fn spec_code(self) -> u8 {
        match self {
            IndexStatus::Completed => 0,
            IndexStatus::Hiatus => 1,
            IndexStatus::Cancelled => 2,
            IndexStatus::Releasing => 3,
            IndexStatus::Unknown => 4,
        }
    }

    pub open spec fn spec_from_code(code: u8) -> IndexStatus {
        if code == 0 {
            IndexStatus::Completed
        } else if code == 1 {
            IndexStatus::Hiatus
        } else if code == 2 {
            IndexStatus::Cancelled
        } else if code == 3 {
            IndexStatus::Releasing
        } else {
            IndexStatus::Unknown
        }
    }
}

impl Byteable for IndexStatus {
    type Model = IndexStatus;

    open spec fn model(&self) -> IndexStatus {
        *self
    }

    open spec fn wire_valid(m: IndexStatus) -> bool {
        true
    }

    /// The status's number as one byte.
    open spec fn spec_encode(m: IndexStatus) -> Result<Seq<u8>, EncodeError> {
        Ok(seq![m.spec_code()])
    }

    open spec fn spec_decode(b: Seq<u8>) -> Result<(IndexStatus, nat), DecodeFault> {
        if b.len() < 1 {
            Err(DecodeFault::UnexpectedEof)
        } else if b[0] <= 4 {
            Ok((IndexStatus::spec_from_code(b[0]), 1))
        } else {
            Err(DecodeFault::InvalidEnumVariant { variant_value: decimal(b[0] as nat), enum_name: "IndexStatus"@ })
        }
    }

    fn encode(&self, out: &mut Vec<u8>) -> (r: Result<(), EncodeError>) {
        let code: u8 = match self {
            IndexStatus::Completed => 0,
            IndexStatus::Hiatus => 1,
            IndexStatus::Cancelled => 2,
            IndexStatus::Releasing => 3,
            IndexStatus::Unknown => 4,
        };
        out.push(code);
        assert(out@ =~= old(out)@ + seq![self.spec_code()]);
        Ok(())
    }

    fn decode(bytes: &[u8], pos: usize) -> (r: Result<(IndexStatus, usize), DecodeError>) {
        if bytes.len() - pos < 1 {
            return Err(DecodeError::UnexpectedEof);
        }
        let v = bytes[pos];
        let status = match v {
            0 => IndexStatus::Completed,
            1 => IndexStatus::Hiatus,
            2 => IndexStatus::Cancelled,
            3 => IndexStatus::Releasing,
            4 => IndexStatus::Unknown,
            _ => {
                return Err(
                    DecodeError::InvalidEnumVariant { variant_value: decimal_string(v as u64), enum_name: "IndexStatus" },
                );
            },
        };
        Ok((status, pos + 1))
    }

    proof fn lemma_roundtrip(m: IndexStatus, rest: Seq<u8>) {
    }

    proof fn lemma_decode_bound(b: Seq<u8>) {
    }
}

/// What is known of an index besides what it was signed with.
#[derive(Debug, Clone, Copy)]
pub struct IndexMetadata {
    hash: crate::types::hash::Hash,
    pub status: IndexStatus,
}

impl IndexMetadata {
    pub closed spec fn spec_hash(&self) -> Seq<u8> {
        self.hash@
    }

    pub closed spec fn spec_status(&self) -> IndexStatus {
        self.status
    }

    pub fn new(hash: crate::types::hash::Hash, status: IndexStatus) -> (r: IndexMetadata)
        ensures
            r.spec_hash() == hash@,
            r.spec_status() == status,
    {
        IndexMetadata { hash, status }
    }
}

impl Byteable for IndexMetadata {
    type Model = (Seq<u8>, IndexStatus);

    open spec fn model(&self) -> (Seq<u8>, IndexStatus) {
        (self.spec_hash(), self.spec_status())
    }

    open spec fn wire_valid(m: (Seq<u8>, IndexStatus)) -> bool {
        <(crate::types::hash::Hash, IndexStatus) as Byteable>::wire_valid(m)
    }

    /// The hash, then the status.
    open spec fn spec_encode(m: (Seq<u8>, IndexStatus)) -> Result<Seq<u8>, EncodeError> {
        <(crate::types::hash::Hash, IndexStatus) as Byteable>::spec_encode(m)
    }

    open spec fn spec_decode(b: Seq<u8>) -> Result<((Seq<u8>, IndexStatus), nat), DecodeFault> {
        <(crate::types::hash::Hash, IndexStatus) as Byteable>::spec_decode(b)
    }

    fn encode(&self, out: &mut Vec<u8>) -> (r: Result<(), EncodeError>) {
        let pair = (self.hash, self.status);
        pair.encode(out)
    }

    fn decode(bytes: &[u8], pos: usize) -> (r: Result<(IndexMetadata, usize), DecodeError>) {
        match <(crate::types::hash::Hash, IndexStatus) as Byteable>::decode(bytes, pos) {
            Ok(((hash, status), p)) => Ok((IndexMetadata { hash, status }, p)),
            Err(e) => Err(e),
        }
    }

    proof fn lemma_roundtrip(m: (Seq<u8>, IndexStatus), rest: Seq<u8>) {
        <(crate::types::hash::Hash, IndexStatus) as Byteable>::lemma_roundtrip(m, rest);
    }

    proof fn lemma_decode_bound(b: Seq<u8>) {
        <(crate::types::hash::Hash, IndexStatus) as Byteable>::lemma_decode_bound(b);
    }
}

/// An index the user follows, and when it was last checked for new contents.
#[derive(Debug)]
pub struct IndexFollow<T: IndexTag> {
    index: crate::types::hash::Hash,
    last_check: Timestamp,
    notify: bool,
    _phantom: core::marker::PhantomData<T>,
}

impl<T: IndexTag> IndexFollow<T> {
    pub closed spec fn spec_index(&self) -> Seq<u8> {
        self.index@
    }

    pub closed spec fn spec_last_check(&self) -> Timestamp {
        self.last_check
    }

    pub closed spec fn spec_notify(&self) -> bool {
        self.notify
    }

    /// The table of the follows of indexes of this kind: the kind's tag, then `_follows`.
    pub fn table_name() -> (r: String)
        ensures
            r@ == T::spec_tag() + "_follows"@,
    {
        let mut name = String::from_str(T::tag());
        name.append("_follows");
        name
    }

    pub fn new(index: crate::types::hash::Hash, notify: bool, last_check: Timestamp) -> (r: IndexFollow<T>)
        ensures
            r.spec_index() == index@,
            r.spec_notify() == notify,
            r.spec_last_check() == last_check,
    {
        IndexFollow { index, last_check, notify, _phantom: core::marker::PhantomData }
    }
}

} // verus!
