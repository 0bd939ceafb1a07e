//! Error kinds of the service and the codes and messages sent to clients.
use vstd::prelude::*;
use vstd::string::StringExecFns;

verus! {

/// Why an authentication step was refused.
#[derive(Clone, Copy, Debug, PartialEq, Eq, Structural)]
pub enum AuthError {
    /// The account does not exist or the password does not match it.
    WrongCredentials,
    /// The login request left the email or the password empty.
    MissingCredentials,
    /// Signing a new token failed.
    TokenCreation,
    /// The bearer token is absent, malformed, wrongly signed or expired.
    InvalidToken,
}

impl AuthError {
    pub open spec fn message_spec(self) -> Seq<char> {
        match self {
            AuthError::WrongCredentials => "Wrong authentication credentials"@,
            AuthError::MissingCredentials => "Missing authentication credentials"@,
            AuthError::TokenCreation => "Failed to create authentication token"@,
            AuthError::InvalidToken => "Invalid authentication token"@,
        }
    }

    /// The human readable message of this error.
    pub fn message(&self) -> (r: String)
        ensures
            r@ == self.message_spec(),
    {
        match self {
            AuthError::WrongCredentials => String::from_str("Wrong authentication credentials"),
            AuthError::MissingCredentials => String::from_str(
                "Missing authentication credentials",
            ),
            AuthError::TokenCreation => String::from_str("Failed to create authentication token"),
            AuthError::InvalidToken => String::from_str("Invalid authentication token"),
        }
    }
}

/// Every error a request can end in.
#[derive(Debug)]
pub enum Error {
    /// The persistence layer failed; holds its message.
    Database(String),
    /// An authentication step was refused.
    Auth(AuthError),
    /// The named object does not exist.
    NotFound(String),
    /// The object clashes with an existing one; holds the explanation.
    ObjectConflict(String),
    /// The password hashing primitive failed, or a stored hash is malformed.
    HashPassword,
}

pub type AppResult<T> = Result<T, Error>;

impl Error {
    pub open spec fn code_spec(&self) -> u32 {
        match self {
            Error::Database(_) => 1001,
            Error::Auth(_) => 2001,
            Error::NotFound(_) => 2002,
            Error::ObjectConflict(_) => 2004,
            Error::HashPassword => 2005,
        }
    }

    pub open spec fn message_spec(&self) -> Seq<char> {
        match self {
            Error::Database(m) => m@,
            Error::Auth(a) => a.message_spec(),
            Error::NotFound(what) => what@ + " not found"@,
            Error::ObjectConflict(m) => m@,
            Error::HashPassword => "hash password"@,
        }
    }

    /// The numeric code reported to the client for this error.
    pub fn code(&self) -> (r: u32)
        ensures
            r == self.code_spec(),
    {
        match self {
            Error::Database(_) => 1001,
            Error::Auth(_) => 2001,
            Error::NotFound(_) => 2002,
            Error::ObjectConflict(_) => 2004,
            Error::HashPassword => 2005,
        }
    }

    /// The message reported to the client for this error.
    pub fn message(&self) -> (r: String)
        ensures
            r@ == self.message_spec(),
    {
        match self {
            Error::Database(m) => m.clone(),
            Error::Auth(a) => a.message(),
            Error::NotFound(what) => {
                let mut s = what.clone();
                s.append(" not found");
                s
            },
            Error::ObjectConflict(m) => m.clone(),
            Error::HashPassword => String::from_str("hash password"),
        }
    }
}

impl From<AuthError> for Error {
    fn from(e: AuthError) -> (r: Error)
        ensures
            r == Error::Auth(e),
    {
        Error::Auth(e)
    }
}

impl vstd::std_specs::convert::FromSpecImpl<AuthError> for Error {
    open spec fn obeys_from_spec() -> bool {
        true
    }

    open spec fn from_spec(e: AuthError) -> Error {
        Error::Auth(e)
    }
}

} // verus!
