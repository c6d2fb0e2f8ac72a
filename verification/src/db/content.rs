//! Contents: the signed entries (a chapter, ...) that belong to an index.
use vstd::prelude::*;

use crate::crypto::{ed25519_public_key_of, ed25519_signature_of, ed25519_verifies, signs_verifiably};
use crate::db::tags::{chapter_bytes, IndexTag, MangaChapter};
use crate::helpers::Language;
use crate::db::Magnet;
use crate::errors::{DecodeError, DecodeFault, EncodeError};
use crate::helpers::byteable::{lemma_skip_skip, Byteable};
use crate::helpers::codec::{le64_signed, put_bytes, put_i64_le};
use crate::types::{PrivateKey, PublicKey, Signature, Timestamp, Topic};

verus! {

/// The little-endian bytes of `x`.
pub open spec fn le32(x: u32) -> Seq<u8> {
    seq![x as u8, (x >> 8u32) as u8, (x >> 16u32) as u8, (x >> 24u32) as u8]
}

fn put_u32_le(out: &mut Vec<u8>, x: u32)
    ensures
        final(out)@ == old(out)@ + le32(x),
{
    out.push(x as u8);
    out.push((x >> 8u32) as u8);
    out.push((x >> 16u32) as u8);
    out.push((x >> 24u32) as u8);
    assert(out@ =~= old(out)@ + le32(x));
}

/// The bytes that a content's signature covers: the index's hash, the
/// timestamp, the magnet link, the source, the title, the enumeration, the
/// end when there is one, and the extra metadata. Numbers are little-endian;
/// the enumeration and the end are the bits of 32-bit floats.
pub open spec fn content_id_bytes(
    index_hash: Seq<u8>,
    timestamp: i64,
    magnet_link: Seq<char>,
    source: Seq<char>,
    title: Seq<char>,
    enumeration: u32,
    end: Option<u32>,
    extra: Seq<u8>,
) -> Seq<u8> {
    index_hash + le64_signed(timestamp) + vstd::utf8::encode_utf8(magnet_link) + vstd::utf8::encode_utf8(source)
        + vstd::utf8::encode_utf8(title) + le32(enumeration) + match end {
        Some(e) => le32(e),
        None => Seq::empty(),
    } + extra
}

/// Marks a content whose source is a magnet link and a path of this network.
#[derive(Debug, Clone, Copy, PartialEq, Eq, Structural)]
pub struct InternalContent;

/// Marks a content whose source is an outside service.
#[derive(Debug, Clone, Copy, PartialEq, Eq, Structural)]
pub struct ExternalContent;

/// A content of an index of the kind `T`, signed by its poster.
///
/// `enumeration` and `end` hold the bits of 32-bit floats (`f32::to_bits`).
#[derive(Debug)]
pub struct Content<T: IndexTag> {
    signature: Signature,
    poster: PublicKey,
    index_hash: crate::types::hash::Hash,
    pub timestamp: Timestamp,
    pub magnet_link: Magnet,
    pub source: String,
    pub title: String,
    pub enumeration: u32,
    /// Where a content covers several enumerations (whole volumes), the last one.
    pub end: Option<u32>,
    pub extra_metadata: MangaChapter,
    /// How far the content has been seen; what a unit is depends on the kind.
    pub progress: u32,
    /// The largest progress; 1 until the content is opened.
    pub count: u32,
    _tag: core::marker::PhantomData<T>,
}

impl<T: IndexTag> Content<T> {
    pub closed spec fn spec_signature(&self) -> Seq<u8> {
        self.signature@
    }

    pub closed spec fn spec_poster(&self) -> Seq<u8> {
        self.poster@
    }

    pub closed spec fn spec_index_hash(&self) -> Seq<u8> {
        self.index_hash@
    }

    pub closed spec fn spec_timestamp(&self) -> Timestamp {
        self.timestamp
    }

    pub closed spec fn spec_magnet_link(&self) -> Seq<char> {
        self.magnet_link.0@
    }

    pub closed spec fn spec_source(&self) -> Seq<char> {
        self.source@
    }

    pub closed spec fn spec_title(&self) -> Seq<char> {
        self.title@
    }

    pub closed spec fn spec_enumeration(&self) -> u32 {
        self.enumeration
    }

    pub closed spec fn spec_end(&self) -> Option<u32> {
        self.end
    }

    pub closed spec fn spec_extra_metadata(&self) -> MangaChapter {
        self.extra_metadata
    }

    pub closed spec fn spec_progress(&self) -> u32 {
        self.progress
    }

    pub closed spec fn spec_count(&self) -> u32 {
        self.count
    }

    /// The bytes this content's signature covers.
    pub open spec fn spec_id_bytes(&self) -> Seq<u8> {
        content_id_bytes(
            self.spec_index_hash(),
            self.spec_timestamp().0,
            self.spec_magnet_link(),
            self.spec_source(),
            self.spec_title(),
            self.spec_enumeration(),
            self.spec_end(),
            chapter_bytes(self.spec_extra_metadata().language),
        )
    }

    pub fn new(
        signature: Signature,
        poster: PublicKey,
        index_hash: crate::types::hash::Hash,
        timestamp: Timestamp,
        magnet_link: Magnet,
        source: String,
        title: String,
        enumeration: u32,
        end: Option<u32>,
        extra_metadata: MangaChapter,
    ) -> (r: Content<T>)
        ensures
            r.spec_signature() == signature@,
            r.spec_poster() == poster@,
            r.spec_index_hash() == index_hash@,
            r.spec_timestamp() == timestamp,
            r.spec_magnet_link() == magnet_link.0@,
            r.spec_source() == source@,
            r.spec_title() == title@,
            r.spec_enumeration() == enumeration,
            r.spec_end() == end,
            r.spec_extra_metadata() == extra_metadata,
            r.spec_progress() == 0,
            r.spec_count() == 1,
    {
        Content {
            signature,
            poster,
            index_hash,
            timestamp,
            magnet_link,
            source,
            title,
            enumeration,
            end,
            extra_metadata,
            progress: 0,
            count: 1,
            _tag: core::marker::PhantomData,
        }
    }

    pub fn id_bytes(
        index_hash: &crate::types::hash::Hash,
        timestamp: &Timestamp,
        magnet_link: &Magnet,
        source: &String,
        title: &str,
        enumeration: u32,
        end: Option<u32>,
        extra_metadata: &MangaChapter,
    ) -> (r: Vec<u8>)
        ensures
            r@ == content_id_bytes(
                index_hash@,
                timestamp.0,
                magnet_link.0@,
                source@,
                title@,
                enumeration,
                end,
                chapter_bytes(extra_metadata.language),
            ),
    {
        let mut bytes: Vec<u8> = Vec::new();
        put_bytes(&mut bytes, index_hash.inner().as_slice());
        put_i64_le(&mut bytes, timestamp.0);
        put_bytes(&mut bytes, magnet_link.0.as_str().as_bytes());
        put_bytes(&mut bytes, source.as_str().as_bytes());
        put_bytes(&mut bytes, title.as_bytes());
        put_u32_le(&mut bytes, enumeration);
        match end {
            Some(e) => put_u32_le(&mut bytes, e),
            None => {
                assert(bytes@ =~= bytes@ + Seq::<u8>::empty());
            },
        }
        let extra = extra_metadata.signed_bytes();
        put_bytes(&mut bytes, extra.as_slice());
        bytes
    }

    /// A content posted by the owner of `priv_key`, signed with it.
    pub fn new_signed(
        index_hash: crate::types::hash::Hash,
        timestamp: Timestamp,
        magnet_link: Magnet,
        source: String,
        title: String,
        enumeration: u32,
        end: Option<u32>,
        extra_metadata: MangaChapter,
        priv_key: &PrivateKey,
    ) -> (r: Content<T>)
        ensures
            r.spec_poster() == ed25519_public_key_of(priv_key@),
            r.spec_index_hash() == index_hash@,
            r.spec_timestamp() == timestamp,
            r.spec_magnet_link() == magnet_link.0@,
            r.spec_source() == source@,
            r.spec_title() == title@,
            r.spec_enumeration() == enumeration,
            r.spec_end() == end,
            r.spec_extra_metadata() == extra_metadata,
            r.spec_signature() == ed25519_signature_of(priv_key@, r.spec_id_bytes()),
            signs_verifiably(priv_key@, r.spec_id_bytes()) ==> ed25519_verifies(
                r.spec_poster(),
                r.spec_id_bytes(),
                r.spec_signature(),
            ),
            r.spec_progress() == 0,
            r.spec_count() == 1,
    {
        let to_sign = Self::id_bytes(
            &index_hash,
            &timestamp,
            &magnet_link,
            &source,
            title.as_str(),
            enumeration,
            end,
            &extra_metadata,
        );
        let signature = priv_key.sign(to_sign.as_slice());
        Self::new(
            signature,
            priv_key.public_key(),
            index_hash,
            timestamp,
            magnet_link,
            source,
            title,
            enumeration,
            end,
            extra_metadata,
        )
    }

    /// Whether the signature is that of the poster over the content's signed fields.
    pub fn verify(&self) -> (r: bool)
        ensures
            r == ed25519_verifies(self.spec_poster(), self.spec_id_bytes(), self.spec_signature()),
    {
        let to_verify = Self::id_bytes(
            &self.index_hash,
            &self.timestamp,
            &self.magnet_link,
            &self.source,
            self.title.as_str(),
            self.enumeration,
            self.end,
            &self.extra_metadata,
        );
        self.poster.verify(to_verify.as_slice(), &self.signature)
    }

    pub fn source(&self) -> (r: &String)
        ensures
            r@ == self.spec_source(),
    {
        &self.source
    }

    pub fn title(&self) -> (r: &str)
        ensures
            r@ == self.spec_title(),
    {
        self.title.as_str()
    }

    pub fn enumeration(&self) -> (r: u32)
        ensures
            r == self.spec_enumeration(),
    {
        self.enumeration
    }

    pub fn end(&self) -> (r: Option<u32>)
        ensures
            r == self.spec_end(),
    {
        self.end
    }

    pub fn extra_metadata(&self) -> (r: &MangaChapter)
        ensures
            *r == self.spec_extra_metadata(),
    {
        &self.extra_metadata
    }

    pub fn signature(&self) -> (r: &Signature)
        ensures
            r@ == self.spec_signature(),
    {
        &self.signature
    }

    pub fn update_progress(&mut self, progress: u32)
        ensures
            final(self).spec_progress() == progress,
            final(self).spec_count() == old(self).spec_count(),
            final(self).spec_signature() == old(self).spec_signature(),
            final(self).spec_poster() == old(self).spec_poster(),
            final(self).spec_index_hash() == old(self).spec_index_hash(),
            final(self).spec_timestamp() == old(self).spec_timestamp(),
            final(self).spec_magnet_link() == old(self).spec_magnet_link(),
            final(self).spec_source() == old(self).spec_source(),
            final(self).spec_title() == old(self).spec_title(),
            final(self).spec_enumeration() == old(self).spec_enumeration(),
            final(self).spec_end() == old(self).spec_end(),
            final(self).spec_extra_metadata() == old(self).spec_extra_metadata(),
    {
        self.progress = progress;
    }

    pub fn index_hash(&self) -> (r: &crate::types::hash::Hash)
        ensures
            r@ == self.spec_index_hash(),
    {
        &self.index_hash
    }
}

impl<T: IndexTag> Clone for Content<T> {
    fn clone(&self) -> (r: Self)
        ensures
            r.spec_signature() == self.spec_signature(),
            r.spec_poster() == self.spec_poster(),
            r.spec_index_hash() == self.spec_index_hash(),
            r.spec_timestamp() == self.spec_timestamp(),
            r.spec_magnet_link() == self.spec_magnet_link(),
            r.spec_source() == self.spec_source(),
            r.spec_title() == self.spec_title(),
            r.spec_enumeration() == self.spec_enumeration(),
            r.spec_end() == self.spec_end(),
            r.spec_extra_metadata() == self.spec_extra_metadata(),
            r.spec_progress() == self.spec_progress(),
            r.spec_count() == self.spec_count(),
    {
        Content {
            signature: self.signature,
            poster: self.poster,
            index_hash: self.index_hash,
            timestamp: self.timestamp,
            magnet_link: Magnet(self.magnet_link.0.clone()),
            source: self.source.clone(),
            title: self.title.clone(),
            enumeration: self.enumeration,
            end: self.end,
            extra_metadata: self.extra_metadata,
            progress: self.progress,
            count: self.count,
            _tag: core::marker::PhantomData,
        }
    }
}

impl Topic {
    /// The topic of a content: its signature.
    pub fn from_content<T: IndexTag>(content: &Content<T>) -> (r: Topic)
        ensures
            r@ == content.spec_signature(),
    {
        Topic::from_signature(*content.signature())
    }
}


/// What the wire format holds of a content's first fields: signature,
/// poster, index hash, timestamp and magnet link.
pub type ContentHeadModel = (Seq<u8>, (Seq<u8>, (Seq<u8>, (i64, Seq<char>))));

/// What the wire format holds of a content's last fields: source, title,
/// enumeration, end and extra metadata.
pub type ContentTailModel<M> = (Seq<char>, (Seq<char>, (u32, (Option<u32>, M))));

pub type ContentModel<M> = (ContentHeadModel, ContentTailModel<M>);

impl<T: IndexTag> Content<T> {
    fn encode_head(&self, out: &mut Vec<u8>) -> (r: Result<(), EncodeError>)
        ensures
            match <(Signature, (PublicKey, (crate::types::hash::Hash, (Timestamp, Magnet)))) as Byteable>::spec_encode((self.signature@, (self.poster@, (self.index_hash@, (self.timestamp.0, self.magnet_link.0@))))) {
                Ok(e) => r is Ok && final(out)@ == old(out)@ + e,
                Err(err) => r == Err::<(), EncodeError>(err),
            },
    {
        let ghost o0 = out@;
        let r = self.signature.encode(out);
        if r.is_err() {
            return r;
        }
        let ghost o1 = out@;
        let r = self.poster.encode(out);
        if r.is_err() {
            return r;
        }
        let ghost o2 = out@;
        let r = self.index_hash.encode(out);
        if r.is_err() {
            return r;
        }
        let ghost o3 = out@;
        let r = self.timestamp.encode(out);
        if r.is_err() {
            return r;
        }
        let ghost o4 = out@;
        let r = self.magnet_link.encode(out);
        if r.is_err() {
            return r;
        }
        let ghost o5 = out@;
        proof {
            assert(o1.skip(o0.len() as int) =~= <Signature as Byteable>::spec_encode(self.signature@)->Ok_0);
            assert(o2.skip(o1.len() as int) =~= <PublicKey as Byteable>::spec_encode(self.poster@)->Ok_0);
            assert(o3.skip(o2.len() as int) =~= <crate::types::hash::Hash as Byteable>::spec_encode(self.index_hash@)->Ok_0);
            assert(o4.skip(o3.len() as int) =~= <Timestamp as Byteable>::spec_encode(self.timestamp.0)->Ok_0);
            assert(o5.skip(o4.len() as int) =~= <Magnet as Byteable>::spec_encode(self.magnet_link.0@)->Ok_0);
            assert(out@ =~= o0 + (o1.skip(o0.len() as int) + (o2.skip(o1.len() as int) + (o3.skip(o2.len() as int) + (o4.skip(o3.len() as int) + o5.skip(o4.len() as int))))));
        }
        Ok(())
    }

    fn encode_tail(&self, out: &mut Vec<u8>) -> (r: Result<(), EncodeError>)
        ensures
            match <(String, (String, (u32, (Option<u32>, MangaChapter)))) as Byteable>::spec_encode((self.source@, (self.title@, (self.enumeration, (self.end, self.extra_metadata.model()))))) {
                Ok(e) => r is Ok && final(out)@ == old(out)@ + e,
                Err(err) => r == Err::<(), EncodeError>(err),
            },
    {
        let ghost o0 = out@;
        let r = self.source.encode(out);
        if r.is_err() {
            return r;
        }
        let ghost o1 = out@;
        let r = self.title.encode(out);
        if r.is_err() {
            return r;
        }
        let ghost o2 = out@;
        let r = self.enumeration.encode(out);
        if r.is_err() {
            return r;
        }
        let ghost o3 = out@;
        let r = self.end.encode(out);
        if r.is_err() {
            return r;
        }
        let ghost o4 = out@;
        let r = self.extra_metadata.encode(out);
        if r.is_err() {
            return r;
        }
        let ghost o5 = out@;
        proof {
            assert(o1.skip(o0.len() as int) =~= <String as Byteable>::spec_encode(self.source@)->Ok_0);
            assert(o2.skip(o1.len() as int) =~= <String as Byteable>::spec_encode(self.title@)->Ok_0);
            assert(o3.skip(o2.len() as int) =~= <u32 as Byteable>::spec_encode(self.enumeration)->Ok_0);
            assert(o4.skip(o3.len() as int) =~= <Option<u32> as Byteable>::spec_encode(self.end)->Ok_0);
            assert(o5.skip(o4.len() as int) =~= <MangaChapter as Byteable>::spec_encode(self.extra_metadata.model())->Ok_0);
            assert(out@ =~= o0 + (o1.skip(o0.len() as int) + (o2.skip(o1.len() as int) + (o3.skip(o2.len() as int) + (o4.skip(o3.len() as int) + o5.skip(o4.len() as int))))));
        }
        Ok(())
    }
}

impl<T: IndexTag> Byteable for Content<T> {
    type Model = ContentModel<Language>;

    open spec fn wire_valid(m: ContentModel<Language>) -> bool {
        <((Signature, (PublicKey, (crate::types::hash::Hash, (Timestamp, Magnet)))), (String, (String, (u32, (Option<u32>, MangaChapter))))) as Byteable>::wire_valid(m)
    }

    closed spec fn model(&self) -> ContentModel<Language> {
        ((self.signature@, (self.poster@, (self.index_hash@, (self.timestamp.0, self.magnet_link.0@)))), (self.source@, (self.title@, (self.enumeration, (self.end, self.extra_metadata.model())))))
    }

    /// The fields in their order of declaration; progress and count are not written.
    open spec fn spec_encode(m: ContentModel<Language>) -> Result<Seq<u8>, EncodeError> {
        <((Signature, (PublicKey, (crate::types::hash::Hash, (Timestamp, Magnet)))), (String, (String, (u32, (Option<u32>, MangaChapter))))) as Byteable>::spec_encode(m)
    }

    open spec fn spec_decode(b: Seq<u8>) -> Result<(ContentModel<Language>, nat), DecodeFault> {
        <((Signature, (PublicKey, (crate::types::hash::Hash, (Timestamp, Magnet)))), (String, (String, (u32, (Option<u32>, MangaChapter))))) as Byteable>::spec_decode(b)
    }

    fn encode(&self, out: &mut Vec<u8>) -> (r: Result<(), EncodeError>) {
        let r = self.encode_head(out);
        if r.is_err() {
            return r;
        }
        let ghost mid = out@;
        let r = self.encode_tail(out);
        if r.is_ok() {
            assert(out@ =~= old(out)@ + (<(Signature, (PublicKey, (crate::types::hash::Hash, (Timestamp, Magnet)))) as Byteable>::spec_encode((self.signature@, (self.poster@, (self.index_hash@, (self.timestamp.0, self.magnet_link.0@)))))->Ok_0 + <(String, (String, (u32, (Option<u32>, MangaChapter)))) as Byteable>::spec_encode((self.source@, (self.title@, (self.enumeration, (self.end, self.extra_metadata.model())))))->Ok_0));
        }
        r
    }

    #[verifier::rlimit(40)]
    /// A content read from another node starts unread, as one chapter.
    fn decode(bytes: &[u8], pos: usize) -> (r: Result<(Content<T>, usize), DecodeError>)
        ensures
            r matches Ok((c, _)) ==> c.spec_progress() == 0 && c.spec_count() == 1,
    {
        let ((signature, (poster, (index_hash, (timestamp, magnet_link)))), p1) = match <(Signature, (PublicKey, (crate::types::hash::Hash, (Timestamp, Magnet)))) as Byteable>::decode(bytes, pos) {
            Ok(v) => v,
            Err(e) => return Err(e),
        };
        proof {
            lemma_skip_skip(bytes@, pos as int, p1 - pos);
        }
        let ((source, (title, (enumeration, (end, extra_metadata)))), p2) = match <(String, (String, (u32, (Option<u32>, MangaChapter)))) as Byteable>::decode(bytes, p1) {
            Ok(v) => v,
            Err(e) => return Err(e),
        };
        Ok((
            Content {
                signature,
                poster,
                index_hash,
                timestamp,
                magnet_link,
                source,
                title,
                enumeration,
                end,
                extra_metadata,
                progress: 0,
                count: 1,
                _tag: core::marker::PhantomData,
            },
            p2,
        ))
    }

    proof fn lemma_roundtrip(m: ContentModel<Language>, rest: Seq<u8>) {
        <((Signature, (PublicKey, (crate::types::hash::Hash, (Timestamp, Magnet)))), (String, (String, (u32, (Option<u32>, MangaChapter))))) as Byteable>::lemma_roundtrip(m, rest);
    }

    proof fn lemma_decode_bound(b: Seq<u8>) {
        <((Signature, (PublicKey, (crate::types::hash::Hash, (Timestamp, Magnet)))), (String, (String, (u32, (Option<u32>, MangaChapter))))) as Byteable>::lemma_decode_bound(b);
    }
}


impl<T: IndexTag> Content<T> {
    /// What the wire format holds of a content is its signed fields and its signature.
    pub proof fn lemma_model(&self)
        ensures
            self.model() == (
                (
                    self.spec_signature(),
                    (self.spec_poster(), (self.spec_index_hash(), (self.spec_timestamp().0, self.spec_magnet_link()))),
                ),
                (
                    self.spec_source(),
                    (self.spec_title(), (self.spec_enumeration(), (self.spec_end(), self.spec_extra_metadata().model()))),
                ),
            ),
    {
    }
}

} // verus!
