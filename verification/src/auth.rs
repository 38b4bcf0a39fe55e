//! Token data carried by the authentication collaborator.
//!
//! Issuing and verifying tokens is the collaborator's business and stays
//! outside this crate; these are the plain values it hands over.

use vstd::prelude::*;
use crate::core_types::{Id, Timestamp};

verus! {

/// An access/refresh token pair as handed to a client.
#[derive(Debug, Clone)]
pub struct TokenPair {
    pub access_token: String,
    pub refresh_token: String,
    pub expires_in: i64,
}

/// The claims carried inside an access token.
#[derive(Debug, Clone)]
pub struct Claims {
    pub sub: Id,
    pub email: String,
    pub username: String,
    pub exp: Timestamp,
    pub iat: Timestamp,
}

impl Claims {
    /// Whether the token is still valid at `now`.
    pub fn is_valid_at(&self, now: Timestamp) -> (r: bool)
        ensures
            r == (now as int <= self.exp as int),
    {
        now <= self.exp
    }
}

} // verus!
