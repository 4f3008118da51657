//! What is known of a caller who signed in.

use vstd::prelude::*;

verus! {

/// What the identity provider tells of an account.
#[derive(Debug)]
pub struct GoogleTokenInfo {
    pub email: String,
    pub name: String,
    pub picture: String,
}

/// The claims of a session token.
#[derive(Debug)]
pub struct Claims {
    pub sub: String,
    pub email: String,
    /// Expiry, in seconds since 1970-01-01 00:00 UTC.
    pub exp: usize,
}

/// A request to sign in with an access token.
#[derive(Debug)]
pub struct TokenRequest {
    pub access_token: String,
}

} // verus!
