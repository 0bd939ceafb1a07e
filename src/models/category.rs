//! Category records.
use vstd::prelude::*;
use chrono::NaiveDateTime;

verus! {

/// A stored category, as the `category` table holds it.
pub struct Category {
    pub id: i32,
    pub name: String,
    pub description: String,
    pub created_at: Option<NaiveDateTime>,
    pub updated_at: Option<NaiveDateTime>,
    pub deleted_at: Option<NaiveDateTime>,
}

/// A request that creates or changes a category.
#[derive(Debug)]
pub struct CategoryData {
    pub name: String,
    pub description: Option<String>,
}

/// A category as lookups return it.
#[derive(Debug)]
pub struct PublicCategory {
    pub id: i32,
    pub name: String,
    pub description: Option<String>,
    pub created_at: NaiveDateTime,
    pub updated_at: NaiveDateTime,
}

} // verus!
