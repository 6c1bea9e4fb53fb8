use authz_core::http_auth::{
    authn_error_to_response, extract_bearer_token, is_preflight_request, missing_token_response,
    AuthNResolverError, Rejection,
};

#[test]
fn bearer_token_is_what_follows_the_scheme() {
    assert_eq!(extract_bearer_token(Some("Bearer abc.def.ghi")), Some("abc.def.ghi"));
    assert_eq!(extract_bearer_token(Some("Bearer   padded \t")), Some("padded"));
    assert_eq!(extract_bearer_token(Some("Bearer two words")), Some("two words"));
    assert_eq!(extract_bearer_token(Some("Bearer \u{a0}wide\u{2003}")), Some("wide"));
}

#[test]
fn bearer_token_can_be_empty() {
    assert_eq!(extract_bearer_token(Some("Bearer ")), Some(""));
    assert_eq!(extract_bearer_token(Some("Bearer    ")), Some(""));
}

#[test]
fn no_bearer_token_without_the_scheme() {
    assert_eq!(extract_bearer_token(None), None);
    assert_eq!(extract_bearer_token(Some("")), None);
    assert_eq!(extract_bearer_token(Some("Bearer")), None);
    assert_eq!(extract_bearer_token(Some("bearer abc")), None);
    assert_eq!(extract_bearer_token(Some("Basic dXNlcjpwYXNz")), None);
    assert_eq!(extract_bearer_token(Some(" Bearer abc")), None);
    assert_eq!(extract_bearer_token(Some("Bearerabc")), None);
}

#[test]
fn preflight_is_options_with_both_headers() {
    assert!(is_preflight_request("OPTIONS", true, true));
    assert!(!is_preflight_request("OPTIONS", true, false));
    assert!(!is_preflight_request("OPTIONS", false, true));
    assert!(!is_preflight_request("OPTIONS", false, false));
    assert!(!is_preflight_request("GET", true, true));
    assert!(!is_preflight_request("options", true, true));
    assert!(!is_preflight_request("", true, true));
}

#[test]
fn failed_authentication_is_answered_without_its_message() {
    assert_eq!(
        authn_error_to_response(&AuthNResolverError::Unauthorized("token of bob".to_owned())),
        Rejection { status: 401, body: "Unauthorized" }
    );
    assert_eq!(
        authn_error_to_response(&AuthNResolverError::NoPluginAvailable),
        Rejection { status: 503, body: "Authentication service unavailable" }
    );
    assert_eq!(
        authn_error_to_response(&AuthNResolverError::ServiceUnavailable("db down".to_owned())),
        Rejection { status: 503, body: "Authentication service unavailable" }
    );
    assert_eq!(
        authn_error_to_response(&AuthNResolverError::Internal("stack".to_owned())),
        Rejection { status: 500, body: "Internal authentication error" }
    );
}

#[test]
fn missing_token_is_answered_with_unauthorized() {
    assert_eq!(
        missing_token_response(),
        Rejection { status: 401, body: "Missing or invalid Authorization header" }
    );
}
