//! Tag records.
use vstd::prelude::*;
use chrono::NaiveDateTime;

verus! {

/// A stored tag, as the `tag` table holds it.
pub struct Tag {
    pub id: i32,
    pub name: String,
    pub description: String,
    pub created_at: Option<NaiveDateTime>,
    pub updated_at: Option<NaiveDateTime>,
    pub deleted_at: Option<NaiveDateTime>,
}

/// A request that creates or changes a tag.
#[derive(Debug)]
pub struct TagData {
    pub name: String,
    pub description: Option<String>,
}

/// A tag as lookups return it.
#[derive(Debug)]
pub struct PublicTag {
    pub id: i32,
    pub name: String,
    pub description: Option<String>,
    pub created_at: NaiveDateTime,
    pub updated_at: NaiveDateTime,
}

} // verus!
