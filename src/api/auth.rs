//! The login decision: from the submitted credentials and the account that the
//! lookup found, a token or the reason for refusal.
use vstd::prelude::*;
use crate::errors::{AppResult, AuthError, Error};
use crate::models::user::PublicUser;
use crate::utils::hash::{password_check, verify_password};
use crate::utils::jwt::{
    claims_issued,
    clamp_issue_time,
    current_timestamp,
    encode_at,
    is_issued_token,
    TOKEN_VALIDITY_SECS,
};
use crate::utils::claims::user_identity;

verus! {

/// A login request.
#[derive(Debug)]
pub struct AuthPayload {
    pub email: String,
    pub password: String,
}

/// The answer to a successful login.
#[derive(Debug)]
pub struct AuthResponse {
    pub access_token: String,
}

/// The request leaves the email or the password empty.
pub open spec fn credentials_missing(payload: &AuthPayload) -> bool {
    payload.email@.len() == 0 || payload.password@.len() == 0
}

/// Whether the account lookup should run: only when both credentials are given.
pub fn needs_lookup(payload: &AuthPayload) -> (r: bool)
    ensures
        r == !credentials_missing(payload),
{
    !(payload.email.as_str().is_empty() || payload.password.as_str().is_empty())
}

/// Decides a login at time `now`, given the account that the lookup by name or
/// email found. Missing credentials are refused first; a missing account and a
/// wrong password are refused alike.
pub fn authorize_at(
    payload: &AuthPayload,
    account: Option<PublicUser>,
    secret: &str,
    now: usize,
) -> (r: AppResult<AuthResponse>)
    requires
        now <= usize::MAX - TOKEN_VALIDITY_SECS,
    ensures
        credentials_missing(payload) ==> r matches Err(Error::Auth(AuthError::MissingCredentials)),
        !credentials_missing(payload) && account is None ==> r matches Err(
            Error::Auth(AuthError::WrongCredentials),
        ),
        !credentials_missing(payload) && account is Some ==> match password_check(
            payload.password@,
            account->0.password_hash@,
        ) {
            None => r matches Err(Error::HashPassword),
            Some(false) => r matches Err(Error::Auth(AuthError::WrongCredentials)),
            Some(true) => r matches Ok(a) && is_issued_token(
                a.access_token@,
                claims_issued(user_identity(account->0), now as nat),
                secret@,
            ),
        },
{
    if !needs_lookup(payload) {
        return Err(Error::Auth(AuthError::MissingCredentials));
    }
    let user = match account {
        Some(u) => u,
        None => {
            return Err(Error::Auth(AuthError::WrongCredentials));
        },
    };
    match verify_password(payload.password.as_str(), user.password_hash.as_str()) {
        Ok(true) => {},
        Ok(false) => {
            return Err(Error::Auth(AuthError::WrongCredentials));
        },
        Err(e) => {
            return Err(e);
        },
    }
    match encode_at(user, secret, now) {
        Ok(token) => Ok(AuthResponse { access_token: token }),
        Err(e) => Err(e),
    }
}

/// Decides a login now, given the account that the lookup by name or email found.
pub fn authorize(payload: &AuthPayload, account: Option<PublicUser>, secret: &str) -> (r: AppResult<
    AuthResponse,
>)
    ensures
        credentials_missing(payload) ==> r matches Err(Error::Auth(AuthError::MissingCredentials)),
        !credentials_missing(payload) && account is None ==> r matches Err(
            Error::Auth(AuthError::WrongCredentials),
        ),
        !credentials_missing(payload) && account is Some ==> match password_check(
            payload.password@,
            account->0.password_hash@,
        ) {
            None => r matches Err(Error::HashPassword),
            Some(false) => r matches Err(Error::Auth(AuthError::WrongCredentials)),
            Some(true) => r matches Ok(a) && exists|now: nat|
                #![trigger claims_issued(user_identity(account->0), now)]
                is_issued_token(
                    a.access_token@,
                    claims_issued(user_identity(account->0), now),
                    secret@,
                ),
        },
{
    let now = clamp_issue_time(current_timestamp());
    authorize_at(payload, account, secret, now)
}

} // verus!
