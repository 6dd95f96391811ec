//! Token-based authentication and authorization for a small web application:
//! credential verification against stored password hashes, signed-token
//! issuance, token validation, and role-gated request decisions.
//!
//! A session token is a compact, URL-safe string of three dot-separated
//! base64url segments — header, claims payload, HMAC-SHA256 signature — that
//! carries a snapshot of the authenticated user's identity and roles together
//! with its minting and expiry times. Validity is self-contained: a token is
//! good exactly when its signature verifies under the process-wide key and it
//! has not yet expired, so no session state is kept server-side.

use vstd::prelude::*;

pub mod auth;
pub mod b64;
pub mod claims;
pub mod codec;
pub mod framing;
pub mod gate;
pub mod mac;
pub mod password;
pub mod stamp;
pub mod text;

verus! {

/// Number of seconds a session token stays valid after it is minted.
pub const SESSION_LIFETIME: u64 = 604800;

} // verus!
