//! The data of MangaDex, the outside catalogue that indexes can take their metadata from.
use vstd::prelude::*;

use std::collections::HashMap;

verus! {

pub const BASE_URL: &'static str = "https://api.mangadex.org";

pub const UPLOADS_BASE_URL: &'static str = "https://uploads.mangadex.org";

/// The client of MangaDex's API.
pub struct MangadexClient;

/// A reply of the API about one manga.
#[derive(Debug)]
pub struct MangaResponse {
    pub result: String,
    pub response: String,
    pub data: MangaData,
}

/// A manga, as MangaDex has it.
#[derive(Debug)]
pub struct MangaData {
    pub id: String,
    pub data_type: String,
    pub attributes: MangaAttributes,
    pub relationships: Vec<Relationship>,
}

/// The attributes of a manga; the text fields are keyed by language.
#[derive(Debug)]
pub struct MangaAttributes {
    pub title: HashMap<String, String>,
    pub alt_titles: Vec<HashMap<String, String>>,
    pub description: HashMap<String, String>,
    pub is_locked: bool,
    pub links: Option<HashMap<String, String>>,
    pub official_links: Option<HashMap<String, String>>,
    pub original_language: String,
    pub last_volume: Option<String>,
    pub last_chapter: Option<String>,
    pub publication_demographic: Option<String>,
    pub status: String,
    pub year: Option<i32>,
    pub content_rating: String,
    pub tags: Vec<Tag>,
    pub state: String,
    pub created_at: String,
    pub updated_at: String,
    pub version: i32,
}

#[derive(Debug)]
pub struct Tag {
    pub id: String,
    pub tag_type: String,
    pub attributes: TagAttributes,
}

#[derive(Debug)]
pub struct TagAttributes {
    pub name: HashMap<String, String>,
    pub group: String,
}

/// What a related item is to a manga; any kind not listed is `Unknown`.
#[derive(Debug, Clone, Copy, PartialEq, Eq, Structural)]
pub enum RelationType {
    Author,
    Artist,
    CoverArt,
    Creator,
    Unknown,
}

/// An item related to a manga.
#[derive(Debug)]
pub struct Relationship {
    pub id: String,
    pub rel_type: RelationType,
}

impl MangaData {
    /// The id of the first cover art among the manga's relationships, if any.
    pub fn cover_id(&self) -> (r: Option<&String>)
        ensures
            match r {
                Some(id) => exists|i: int|
                    0 <= i < self.relationships@.len() && (#[trigger] self.relationships@[i]).rel_type
                        == RelationType::CoverArt && *id == self.relationships@[i].id && forall|j: int|
                        0 <= j < i ==> (#[trigger] self.relationships@[j]).rel_type != RelationType::CoverArt,
                None => forall|j: int|
                    0 <= j < self.relationships@.len() ==> (#[trigger] self.relationships@[j]).rel_type
                        != RelationType::CoverArt,
            },
    {
        let mut i: usize = 0;
        while i < self.relationships.len()
            invariant
                i <= self.relationships@.len(),
                forall|j: int| 0 <= j < i ==> (#[trigger] self.relationships@[j]).rel_type != RelationType::CoverArt,
            decreases self.relationships@.len() - i,
        {
            if self.relationships[i].rel_type == RelationType::CoverArt {
                return Some(&self.relationships[i].id);
            }
            i = i + 1;
        }
        None
    }
}

} // verus!
