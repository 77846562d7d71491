//! Session identity: the auth token attached to every request and the
//! password hashing behind sign-in and sign-up.
//!
//! The surrounding server encodes the token into a cookie and back; this
//! module owns the token's contents and lifetime arithmetic.  Hashing goes
//! through SHA-256 over password, per-user salt and server-wide pepper; the
//! caller reads the pepper from its configuration and the clock from its
//! environment and passes both in.

use vstd::prelude::*;
use vstd::string::StringSliceAdditionalSpecFns;

use crate::preferences::Preferences;

pub mod sign_in;
pub mod sign_up;

verus! {

/// Seconds a freshly issued or refreshed token stays valid: one day.
pub const VALIDITY_DURATION_SECS: u64 = 60 * 60 * 24;

/// Relies on `sha2::Sha256`: the digest of password bytes, per-user salt and
/// server-wide pepper, concatenated in that order.  The digest is a function
/// of those three inputs alone; the algorithm itself is not restated here.
pub uninterp spec fn sha256_pwd(password: Seq<u8>, salt: Seq<u8>, pepper: Seq<u8>) -> Seq<u8>;

/// Relies on `sha2::Sha256` (via the `Digest` interface): feeds the password,
/// the salt and the pepper into one digest.  The output length is the
/// documented SHA-256 output size of 32 bytes.
#[verifier::external_body]
pub fn password_hash(password: &str, salt: &Vec<u8>, pepper: &str) -> (r: Vec<u8>)
    ensures
        r@ == sha256_pwd(password.spec_bytes(), salt@, pepper.spec_bytes()),
        r@.len() == 32,
{
    let mut hasher = <sha2::Sha256 as sha2::Digest>::new();
    sha2::Digest::update(&mut hasher, password);
    sha2::Digest::update(&mut hasher, salt);
    sha2::Digest::update(&mut hasher, pepper);
    sha2::Digest::finalize(hasher).to_vec()
}

/// Byte-for-byte equality of two byte vectors.
fn bytes_eq(a: &Vec<u8>, b: &Vec<u8>) -> (r: bool)
    ensures
        r == (a@ == b@),
{
    if a.len() != b.len() {
        return false;
    }
    let n = a.len();
    let mut i: usize = 0;
    while i < n
        invariant
            n == a@.len(),
            n == b@.len(),
            i <= n,
            forall|q: int| 0 <= q < i ==> a@[q] == b@[q],
        decreases n - i,
    {
        if a[i] != b[i] {
            return false;
        }
        i += 1;
    }
    proof {
        assert(a@ =~= b@);
    }
    true
}

/// Whether a supplied password, hashed with this salt and pepper, matches
/// the stored hash.
pub fn check_password(password: &str, salt: &Vec<u8>, pepper: &str, stored: &Vec<u8>) -> (ok: bool)
    ensures
        ok == (sha256_pwd(password.spec_bytes(), salt@, pepper.spec_bytes()) == stored@),
{
    let computed = password_hash(password, salt, pepper);
    bytes_eq(&computed, stored)
}

/// The view of an [`AuthToken`].
pub struct AuthTokenV {
    pub exp: u64,
    pub user_id: u32,
    pub username: Seq<char>,
    pub email: Seq<char>,
}

/// The verified identity carried by a signed-in connection, with its expiry
/// as seconds since the Unix epoch.
#[derive(Debug)]
pub struct AuthToken {
    exp: u64,
    pub user_id: u32,
    pub username: String,
    pub email: String,
}

impl View for AuthToken {
    type V = AuthTokenV;

    closed spec fn view(&self) -> AuthTokenV {
        AuthTokenV {
            exp: self.exp,
            user_id: self.user_id,
            username: self.username@,
            email: self.email@,
        }
    }
}

impl AuthToken {
    /// A token for a verified identity, issued at `now_secs` on the caller's
    /// clock and valid for one day.
    pub fn new(user_id: u32, username: &str, email: &str, now_secs: u64) -> (t: AuthToken)
        requires
            now_secs + VALIDITY_DURATION_SECS <= u64::MAX,
        ensures
            t@ == (AuthTokenV {
                exp: (now_secs + VALIDITY_DURATION_SECS) as u64,
                user_id,
                username: username@,
                email: email@,
            }),
    {
        AuthToken {
            exp: now_secs + VALIDITY_DURATION_SECS,
            user_id,
            username: username.to_owned(),
            email: email.to_owned(),
        }
    }

    /// Extends the token's validity to one day from `now_secs`.
    pub fn refresh(&mut self, now_secs: u64)
        requires
            now_secs + VALIDITY_DURATION_SECS <= u64::MAX,
        ensures
            final(self)@ == (AuthTokenV {
                exp: (now_secs + VALIDITY_DURATION_SECS) as u64,
                user_id: old(self)@.user_id,
                username: old(self)@.username,
                email: old(self)@.email,
            }),
    {
        self.exp = now_secs + VALIDITY_DURATION_SECS;
    }

    /// When the token expires, in seconds since the Unix epoch.
    pub fn expiry_secs(&self) -> (e: u64)
        ensures
            e == self@.exp,
    {
        self.exp
    }

    /// Whether the token is still valid at the given time.
    pub fn is_valid_at(&self, now_secs: u64) -> (b: bool)
        ensures
            b == (now_secs <= self@.exp),
    {
        now_secs <= self.exp
    }
}

/// Why a request's auth token was rejected.
#[derive(Debug, Clone, Copy, PartialEq, Eq, Structural)]
pub enum AuthTokenRejection {
    CookieNotFound,
    Expired,
    Other,
}

impl AuthTokenRejection {
    /// The HTTP status code reported for this rejection.
    pub fn status_code(&self) -> (c: u16)
        ensures
            c == match self {
                AuthTokenRejection::CookieNotFound => 422u16,
                AuthTokenRejection::Expired => 422u16,
                AuthTokenRejection::Other => 500u16,
            },
    {
        match self {
            AuthTokenRejection::CookieNotFound => 422,
            AuthTokenRejection::Expired => 422,
            AuthTokenRejection::Other => 500,
        }
    }

    /// The response body reported for this rejection.
    pub fn message(&self) -> (m: &'static str)
        ensures
            m@ == match self {
                AuthTokenRejection::CookieNotFound => "Sign in JWT not found"@,
                AuthTokenRejection::Expired => "Sign in JWT expired"@,
                AuthTokenRejection::Other => "Internal server error"@,
            },
    {
        match self {
            AuthTokenRejection::CookieNotFound => "Sign in JWT not found",
            AuthTokenRejection::Expired => "Sign in JWT expired",
            AuthTokenRejection::Other => "Internal server error",
        }
    }
}

/// What a signed-in user is told about themselves.
#[derive(Debug)]
pub struct CurrentUserResponse {
    pub username: String,
    pub email: String,
    pub preferences: Preferences,
}

/// The reply to a log-out request.
#[derive(Debug)]
pub struct LogOutResponse;

} // verus!
