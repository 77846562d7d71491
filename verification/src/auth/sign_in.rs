//! Signing in: the password check against the stored account row and the
//! token issued on success.  The persistence collaborator fetches the row;
//! this module decides whether the credentials match it.

use vstd::prelude::*;
use vstd::string::StringSliceAdditionalSpecFns;

use crate::auth::{check_password, sha256_pwd, AuthToken, VALIDITY_DURATION_SECS};
use crate::common::Preferences;

verus! {

/// A sign-in request.
#[derive(Debug)]
pub struct SignInParams {
    pub username_or_email: UsernameOrEmail,
    pub password: String,
}

/// The reply to a successful sign-in.
#[derive(Debug)]
pub struct SignInResponse {
    pub username: String,
    pub email: String,
    pub preferences: Preferences,
}

/// Why a sign-in was rejected.  Wrong name, unknown account and wrong
/// password are deliberately indistinguishable.
#[derive(Debug, Clone, Copy, PartialEq, Eq, Structural)]
pub enum SignInError {
    InvalidSignInParams,
    Other,
}

/// How the user identified their account.
#[derive(Debug)]
pub enum UsernameOrEmail {
    Username(String),
    Email(String),
}

/// The stored credentials of the account row a sign-in names.
#[derive(Debug)]
pub struct StoredCredentials {
    pub user_id: u32,
    pub username: String,
    pub email: String,
    pub salt: Vec<u8>,
    pub password_hash: Vec<u8>,
}

/// Decides a sign-in against the fetched account row: the supplied password
/// is hashed under the row's salt and the server pepper, and only an exact
/// hash match issues a token.  A mismatch is reported as invalid
/// credentials, never with more detail.
pub fn sign_in_verify(row: &StoredCredentials, password: &str, pepper: &str, now_secs: u64) -> (r:
    Result<AuthToken, SignInError>)
    requires
        now_secs + VALIDITY_DURATION_SECS <= u64::MAX,
    ensures
        ({
            let hash_matches = sha256_pwd(
                password.spec_bytes(),
                row.salt@,
                pepper.spec_bytes(),
            ) == row.password_hash@;
            match r {
                Ok(t) => hash_matches && t@.user_id == row.user_id && t@.username
                    == row.username@ && t@.email == row.email@ && t@.exp == now_secs
                    + VALIDITY_DURATION_SECS,
                Err(e) => !hash_matches && e == SignInError::InvalidSignInParams,
            }
        }),
{
    if !check_password(password, &row.salt, pepper, &row.password_hash) {
        return Err(SignInError::InvalidSignInParams);
    }
    Ok(AuthToken::new(row.user_id, row.username.as_str(), row.email.as_str(), now_secs))
}

impl SignInError {
    /// The HTTP status code reported for this rejection.
    pub fn status_code(&self) -> (c: u16)
        ensures
            c == match self {
                SignInError::InvalidSignInParams => 422u16,
                SignInError::Other => 500u16,
            },
    {
        match self {
            SignInError::InvalidSignInParams => 422,
            SignInError::Other => 500,
        }
    }

    /// The response body reported for this rejection.
    pub fn message(&self) -> (m: &'static str)
        ensures
            m@ == match self {
                SignInError::InvalidSignInParams => "Invalid username/email/password"@,
                SignInError::Other => "Internal server error"@,
            },
    {
        match self {
            SignInError::InvalidSignInParams => "Invalid username/email/password",
            SignInError::Other => "Internal server error",
        }
    }
}

} // verus!
