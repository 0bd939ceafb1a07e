//! Encodings and primitives that the authentication core is built from.
pub mod encoding;
pub mod json;
pub mod jwt;
pub mod signing;
pub mod hash;
pub mod avatar;
pub mod claims;
