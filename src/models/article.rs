//! Articles.
use vstd::prelude::*;
use chrono::NaiveDateTime;

verus! {

/// A stored article, as the `article` table holds it.
pub struct Article {
    pub id: i32,
    pub title: String,
    pub slug: Option<String>,
    pub content: String,
    pub summary: Option<String>,
    pub cover: Option<String>,
    pub status: i8,
    pub password: Option<String>,
    pub read_count: i32,
    pub like_count: i32,
    pub is_top: bool,
    pub category_id: i32,
    pub user_id: i32,
    pub created_at: Option<NaiveDateTime>,
    pub updated_at: Option<NaiveDateTime>,
    pub deleted_at: Option<NaiveDateTime>,
}

/// A request that writes a new article.
#[derive(Debug)]
pub struct CreateArticle {
    pub title: String,
    pub slug: Option<String>,
    pub content: String,
    pub summary: Option<String>,
    pub cover: Option<String>,
    pub status: i8,
    pub password: Option<String>,
    pub category_id: i32,
}

/// A request that changes an article.
#[derive(Debug)]
pub struct UpdateArticle {
    pub title: String,
    pub slug: Option<String>,
    pub content: String,
    pub summary: Option<String>,
    pub cover: Option<String>,
    pub status: i8,
    pub read_count: i32,
    pub like_count: i32,
    pub is_top: bool,
    pub password: Option<String>,
    pub category_id: i32,
}

/// An article as lookups return it.
#[derive(Debug)]
pub struct PublicArticle {
    pub id: i32,
    pub title: String,
    pub slug: Option<String>,
    pub content: String,
    pub summary: Option<String>,
    pub cover: Option<String>,
    pub status: i8,
    pub read_count: i32,
    pub like_count: i32,
    pub is_top: i8,
    pub category_id: i32,
    pub user_id: i32,
    pub created_at: NaiveDateTime,
    pub updated_at: NaiveDateTime,
}

} // verus!
