//! A client library for registering dedicated game-server instances with the
//! Trackmania web services: it acquires a bearer token with basic credentials,
//! caches it, derives the account id from the token's claims, and builds the
//! registration requests that carry the token.
//!
//! The library never performs I/O itself: every operation either answers from
//! its cached state or hands the caller a fully described [`HttpRequest`] to
//! perform, whose response is handed back as plain text.
use vstd::prelude::*;

pub mod base64;
pub mod client;
pub mod config;
pub mod http;
pub mod json;

pub use client::AccessTokenClaims;
pub use client::AuthToken;
pub use client::Client;
pub use client::DedicatedServerClient;
pub use client::Step;
pub use config::ClientConfig;
pub use config::ClientConfigSettings;
pub use config::ServerConfig;
pub use http::BasicAuth;
pub use http::HttpRequest;
pub use http::Method;

verus! {

/// The two failure kinds of this library: a transport-level failure (the HTTP
/// exchange failed or a response body could not be understood) and a failure
/// to decode the claims carried inside an access token.
#[derive(Debug, Clone, Copy, PartialEq, Eq, Structural)]
pub enum Error {
    Http,
    Decode,
}

/// Relies on `alloc::string::String::push`: appends the character to the string.
pub assume_specification[ String::push ](s: &mut String, c: char)
    ensures
        final(s)@ == old(s)@.push(c),
;

} // verus!
