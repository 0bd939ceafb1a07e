//! Authentication core of a blog API: credential hashing, signed session
//! tokens, request-time authentication and the login decision, together with
//! the plain data types that the HTTP layer and the database layer exchange.
use vstd::prelude::*;

pub mod api;
pub mod errors;
pub mod models;
pub mod settings;
pub mod utils;

verus! {

} // verus!
