//! The link between an article and one of its tags.
use vstd::prelude::*;

verus! {

/// One row of the `article_tag` table.
pub struct Reply {
    pub id: i32,
    pub article_id: i32,
    pub tag_id: i32,
}

} // verus!
