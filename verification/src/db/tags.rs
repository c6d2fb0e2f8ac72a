//! Kinds of indexes, each with its own tables, events and content metadata.
use vstd::prelude::*;

use crate::db::event::EventType;
use crate::db::to_bytes::ToBytes;
use crate::errors::{DecodeError, DecodeFault, EncodeError};
use crate::helpers::byteable::Byteable;
use crate::helpers::Language;

verus! {

/// A kind of index (manga, ...): the name of its tables and the events it raises.
pub trait IndexTag {
    spec fn spec_tag() -> Seq<char>;

    spec fn spec_content_table() -> Seq<char>;

    spec fn spec_event_type() -> EventType;

    spec fn spec_content_event_type() -> EventType;

    /// The table of the indexes, which also names the kind.
    fn tag() -> (r: &'static str)
        ensures
            r@ == Self::spec_tag(),
    ;

    /// The table of the contents of the indexes.
    fn content_table() -> (r: &'static str)
        ensures
            r@ == Self::spec_content_table(),
    ;

    fn event_type() -> (r: EventType)
        ensures
            r == Self::spec_event_type(),
    ;

    fn content_event_type() -> (r: EventType)
        ensures
            r == Self::spec_content_event_type(),
    ;
}

/// Manga indexes.
#[derive(Debug, Clone, PartialEq, Eq, Hash, Structural)]
pub struct MangaTag;

impl MangaTag {
    pub const TAG: &'static str = "mangas";

    pub const CONTENT_TABLE: &'static str = "manga_chapters";
}

impl IndexTag for MangaTag {

    open spec fn spec_tag() -> Seq<char> {
        "mangas"@
    }

    open spec fn spec_content_table() -> Seq<char> {
        "manga_chapters"@
    }

    open spec fn spec_event_type() -> EventType {
        EventType::Manga
    }

    open spec fn spec_content_event_type() -> EventType {
        EventType::MangaContent
    }

    fn tag() -> (r: &'static str) {
        "mangas"
    }

    fn content_table() -> (r: &'static str) {
        "manga_chapters"
    }

    fn event_type() -> (r: EventType) {
        EventType::Manga
    }

    fn content_event_type() -> (r: EventType) {
        EventType::MangaContent
    }
}

/// The kind of no index in particular.
#[derive(Debug, Clone, PartialEq, Eq, Hash, Structural)]
pub struct NoTag;

impl IndexTag for NoTag {

    open spec fn spec_tag() -> Seq<char> {
        ""@
    }

    open spec fn spec_content_table() -> Seq<char> {
        ""@
    }

    open spec fn spec_event_type() -> EventType {
        EventType::Invalid
    }

    open spec fn spec_content_event_type() -> EventType {
        EventType::Invalid
    }

    fn tag() -> (r: &'static str) {
        ""
    }

    fn content_table() -> (r: &'static str) {
        ""
    }

    fn event_type() -> (r: EventType) {
        EventType::Invalid
    }

    fn content_event_type() -> (r: EventType) {
        EventType::Invalid
    }
}

/// What a manga chapter carries: its language.
#[derive(Debug, Clone, Copy, PartialEq, Eq, Structural)]
pub struct MangaChapter {
    pub language: Language,
}

impl MangaChapter {
    pub fn new(language: Language) -> (r: MangaChapter)
        ensures
            r.language == language,
    {
        MangaChapter { language }
    }
}

/// The signed bytes of a chapter: its language's number as a big-endian `u16`.
pub open spec fn chapter_bytes(language: Language) -> Seq<u8> {
    seq![0u8, language.spec_code()]
}

impl MangaChapter {
    /// The chapter's signed bytes.
    pub fn signed_bytes(&self) -> (r: Vec<u8>)
        ensures
            r@ == chapter_bytes(self.language),
    {
        let mut bytes: Vec<u8> = Vec::new();
        bytes.push(0u8);
        bytes.push(self.language.code());
        assert(bytes@ =~= seq![0u8, self.language.spec_code()]);
        bytes
    }
}

impl ToBytes for MangaChapter {
    open spec fn spec_to_bytes(&self) -> Seq<u8> {
        chapter_bytes(self.language)
    }

    fn to_bytes(&self) -> (r: Vec<u8>) {
        self.signed_bytes()
    }
}

impl Byteable for MangaChapter {
    type Model = Language;

    open spec fn model(&self) -> Language {
        self.language
    }

    open spec fn wire_valid(m: Language) -> bool {
        true
    }

    /// The language.
    open spec fn spec_encode(m: Language) -> Result<Seq<u8>, EncodeError> {
        <Language as Byteable>::spec_encode(m)
    }

    open spec fn spec_decode(b: Seq<u8>) -> Result<(Language, nat), DecodeFault> {
        <Language as Byteable>::spec_decode(b)
    }

    fn encode(&self, out: &mut Vec<u8>) -> (r: Result<(), EncodeError>) {
        self.language.encode(out)
    }

    fn decode(bytes: &[u8], pos: usize) -> (r: Result<(MangaChapter, usize), DecodeError>) {
        match Language::decode(bytes, pos) {
            Ok((language, p)) => Ok((MangaChapter { language }, p)),
            Err(e) => Err(e),
        }
    }

    proof fn lemma_roundtrip(m: Language, rest: Seq<u8>) {
        Language::lemma_roundtrip(m, rest);
    }

    proof fn lemma_decode_bound(b: Seq<u8>) {
    }
}

} // verus!
