//! Records that the persistence layer stores and the requests that create or
//! change them. The timestamps are carried through as chrono values.
use vstd::prelude::*;

pub mod article;
pub mod article_tag;
pub mod category;
pub mod comment;
pub mod reply;
pub mod role;
pub mod tag;
pub mod user;

verus! {

#[verifier::external_type_specification]
#[verifier::external_body]
pub struct ExNaiveDateTime(chrono::NaiveDateTime);

} // verus!
