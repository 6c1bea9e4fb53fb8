//! What the gateway's authentication step decides about a request, apart
//! from the request itself: whether it is a preflight, which bearer token
//! it carries, and how a failed authentication is answered.

use vstd::prelude::*;

use crate::text::str_eq;

verus! {

// ── Text of headers ─────────────────────────────────────────────────

/// Whether a character is white space: one of the code points with the
/// Unicode property `White_Space`, which is what `char::is_whitespace` of
/// std tests.
pub open spec fn is_whitespace(c: char) -> bool {
    let code = c as u32;
    (0x09 <= code <= 0x0D) || code == 0x20 || code == 0x85 || code == 0xA0 || code == 0x1680 || (
    0x2000 <= code <= 0x200A) || code == 0x2028 || code == 0x2029 || code == 0x202F || code
        == 0x205F || code == 0x3000
}

/// The text without the white space at its start.
pub open spec fn trimmed_start(text: Seq<char>) -> Seq<char>
    decreases text.len(),
{
    if text.len() > 0 && is_whitespace(text[0]) {
        trimmed_start(text.skip(1))
    } else {
        text
    }
}

/// The text without the white space at its end.
pub open spec fn trimmed_end(text: Seq<char>) -> Seq<char>
    decreases text.len(),
{
    if text.len() > 0 && is_whitespace(text.last()) {
        trimmed_end(text.drop_last())
    } else {
        text
    }
}

/// The text without the white space at its start and at its end.
pub open spec fn trimmed(text: Seq<char>) -> Seq<char> {
    trimmed_end(trimmed_start(text))
}

/// Calls `str::trim`, which returns the slice without leading and trailing
/// white space, white space being the code points with the Unicode
/// property `White_Space`.
#[verifier::external_body]
fn trim(text: &str) -> (inner: &str)
    ensures
        inner@ == trimmed(text@),
{
    text.trim()
}

/// Calls `str::strip_prefix`, which returns what follows the prefix if the
/// text starts with it, and nothing otherwise.
#[verifier::external_body]
fn strip_prefix<'a>(text: &'a str, prefix: &str) -> (rest: Option<&'a str>)
    ensures
        match rest {
            Some(tail) => text@ == prefix@ + tail@,
            None => !prefix@.is_prefix_of(text@),
        },
{
    text.strip_prefix(prefix)
}

/// The bearer token of an `Authorization` header value: what follows the
/// scheme `Bearer ` with the white space around it taken off, if the value
/// starts with that scheme.
pub open spec fn bearer_token_of(authorization: Seq<char>) -> Option<Seq<char>> {
    if "Bearer "@.is_prefix_of(authorization) {
        Some(trimmed(authorization.skip("Bearer "@.len() as int)))
    } else {
        None
    }
}

/// Extracts the bearer token from the value of the `Authorization` header,
/// if the request has that header and its value is text.
pub fn extract_bearer_token(authorization: Option<&str>) -> (token: Option<&str>)
    ensures
        match token {
            Some(text) => authorization is Some && bearer_token_of(authorization->Some_0@) == Some(
                text@,
            ),
            None => authorization is None || bearer_token_of(authorization->Some_0@) is None,
        },
{
    match authorization {
        Some(value) => match strip_prefix(value, "Bearer ") {
            Some(rest) => {
                proof {
                    assert(("Bearer "@ + rest@).skip("Bearer "@.len() as int) =~= rest@);
                    assert("Bearer "@.is_prefix_of("Bearer "@ + rest@));
                }
                Some(trim(rest))
            },
            None => None,
        },
        None => None,
    }
}

// ── Preflight requests ──────────────────────────────────────────────

/// Whether a request is a CORS preflight: an `OPTIONS` request with an
/// `Origin` header and an `Access-Control-Request-Method` header.
pub fn is_preflight_request(
    method: &str,
    has_origin: bool,
    has_access_control_request_method: bool,
) -> (preflight: bool)
    ensures
        preflight == (method@ == "OPTIONS"@ && has_origin && has_access_control_request_method),
{
    str_eq(method, "OPTIONS") && has_origin && has_access_control_request_method
}

// ── Failed authentication ───────────────────────────────────────────

/// Why a bearer token could not be authenticated.
#[derive(Clone, Debug, PartialEq, Eq)]
pub enum AuthNResolverError {
    /// The token is no one's.
    Unauthorized(String),
    /// No authentication plugin is registered.
    NoPluginAvailable,
    /// The authentication service is not ready.
    ServiceUnavailable(String),
    /// Anything else went wrong.
    Internal(String),
}

/// The answer to a request that is turned away: the HTTP status and the
/// text of the body.
#[derive(Clone, Copy, Debug, PartialEq, Eq)]
pub struct Rejection {
    pub status: u16,
    pub body: &'static str,
}

/// The status and body with which a failed authentication is answered.
pub open spec fn rejection_of(error: AuthNResolverError) -> (u16, Seq<char>) {
    match error {
        AuthNResolverError::Unauthorized(_) => (401u16, "Unauthorized"@),
        AuthNResolverError::NoPluginAvailable => (503u16, "Authentication service unavailable"@),
        AuthNResolverError::ServiceUnavailable(_) => (
            503u16,
            "Authentication service unavailable"@,
        ),
        AuthNResolverError::Internal(_) => (500u16, "Internal authentication error"@),
    }
}

/// How a failed authentication is answered. The answer never repeats the
/// message of the error.
pub fn authn_error_to_response(error: &AuthNResolverError) -> (rejection: Rejection)
    ensures
        (rejection.status, rejection.body@) == rejection_of(*error),
{
    match error {
        AuthNResolverError::Unauthorized(_) => Rejection { status: 401, body: "Unauthorized" },
        AuthNResolverError::NoPluginAvailable => Rejection {
            status: 503,
            body: "Authentication service unavailable",
        },
        AuthNResolverError::ServiceUnavailable(_) => Rejection {
            status: 503,
            body: "Authentication service unavailable",
        },
        AuthNResolverError::Internal(_) => Rejection {
            status: 500,
            body: "Internal authentication error",
        },
    }
}

/// How a request without a usable `Authorization` header is answered.
pub fn missing_token_response() -> (rejection: Rejection)
    ensures
        rejection.status == 401,
        rejection.body@ == "Missing or invalid Authorization header"@,
{
    Rejection { status: 401, body: "Missing or invalid Authorization header" }
}

} // verus!
