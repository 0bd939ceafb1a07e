//! User accounts.
use vstd::prelude::*;
use vstd::utf8::encode_utf8;
use chrono::NaiveDateTime;
use crate::errors::{AppResult, Error};
use crate::utils::avatar::{avatar_url, blake2s256_of, get_avatar_url};
use crate::utils::encoding::base64_text;
use crate::utils::hash::{generate_hash, password_check};

verus! {

/// A stored account, as the `user` table holds it.
pub struct User {
    pub id: i32,
    pub name: String,
    pub password_hash: String,
    pub email: String,
    pub role_id: i32,
    pub avatar: Option<String>,
    pub created_at: Option<NaiveDateTime>,
    pub last_seen: Option<NaiveDateTime>,
    pub deleted_at: Option<NaiveDateTime>,
    pub is_active: Option<bool>,
}

/// A registration request.
#[derive(Debug)]
pub struct CreateUser {
    pub name: String,
    pub password: String,
    pub email: String,
}

/// A profile change request.
#[derive(Debug)]
pub struct UpdateUser {
    pub name: String,
    pub email: String,
    pub avatar: Option<String>,
}

/// An account as lookups return it; the stored hash is never sent to clients.
#[derive(Debug)]
pub struct PublicUser {
    pub id: i32,
    pub name: String,
    pub email: String,
    pub password_hash: String,
    pub avatar: Option<String>,
    pub created_at: NaiveDateTime,
    pub last_seen: NaiveDateTime,
    pub deleted_at: Option<NaiveDateTime>,
}

/// The row that registering an account inserts.
#[derive(Debug)]
pub struct NewUser {
    pub name: String,
    pub password_hash: String,
    pub email: String,
    pub avatar: String,
    pub role_id: i32,
    pub is_active: bool,
}

/// The size in pixels of the default avatar of a new account.
pub const DEFAULT_AVATAR_SIZE: i32 = 64;

/// The role that a new account gets.
pub const DEFAULT_ROLE_ID: i32 = 1;

impl User {
    /// The row for a registration: the password replaced by its hash, the
    /// default avatar of the email, the default role, not yet active. It
    /// succeeds for every password that Argon2 takes.
    pub fn new_record(user_info: &CreateUser) -> (r: AppResult<NewUser>)
        ensures
            encode_utf8(user_info.password@).len() <= 0xFFFF_FFFF ==> r is Ok,
            r matches Ok(u) ==> {
                &&& u.name == user_info.name
                &&& u.email == user_info.email
                &&& password_check(user_info.password@, u.password_hash@) == Some(true)
                &&& u.avatar@ == avatar_url(
                    base64_text(blake2s256_of(encode_utf8(user_info.email@))),
                    DEFAULT_AVATAR_SIZE as int,
                )
                &&& u.role_id == DEFAULT_ROLE_ID
                &&& !u.is_active
            },
            r is Err ==> r matches Err(Error::HashPassword),
    {
        let password_hash = match generate_hash(user_info.password.as_str()) {
            Ok(h) => h,
            Err(e) => {
                return Err(e);
            },
        };
        let avatar = get_avatar_url(user_info.email.as_str(), DEFAULT_AVATAR_SIZE);
        Ok(
            NewUser {
                name: user_info.name.clone(),
                password_hash,
                email: user_info.email.clone(),
                avatar,
                role_id: DEFAULT_ROLE_ID,
                is_active: false,
            },
        )
    }
}

} // verus!
