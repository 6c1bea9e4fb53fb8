//! Bearer tokens held so that formatting never shows them.

use vstd::prelude::*;

verus! {

/// An opaque bearer token. It keeps its text in a `secrecy::SecretString`,
/// whose `Debug` impl prints a fixed placeholder, so a token never shows in
/// the debug rendering of a value that holds one.
#[verifier::external_body]
#[derive(Debug)]
pub struct BearerToken {
    secret: secrecy::SecretString,
}

/// The text that a bearer token holds.
pub uninterp spec fn token_text(token: BearerToken) -> Seq<char>;

/// Calls `SecretString::from` on an owned copy of the text, which boxes
/// exactly that text.
#[verifier::external_body]
fn seal(text: &str) -> (token: BearerToken)
    ensures
        token_text(token) == text@,
{
    BearerToken { secret: secrecy::SecretString::from(text.to_owned()) }
}

/// Calls `ExposeSecret::expose_secret`, which hands out a reference to the
/// boxed text.
#[verifier::external_body]
fn unseal(token: &BearerToken) -> (text: &str)
    ensures
        text@ == token_text(*token),
{
    secrecy::ExposeSecret::expose_secret(&token.secret)
}

/// Calls `Clone::clone` of `secrecy::SecretString`, which boxes a copy of
/// the text.
#[verifier::external_body]
fn reseal(token: &BearerToken) -> (copy: BearerToken)
    ensures
        token_text(copy) == token_text(*token),
{
    BearerToken { secret: token.secret.clone() }
}

impl View for BearerToken {
    type V = Seq<char>;

    open spec fn view(&self) -> Seq<char> {
        token_text(*self)
    }
}

impl BearerToken {
    /// A token with a copy of `text`.
    pub fn new(text: &str) -> (token: BearerToken)
        ensures
            token@ == text@,
    {
        seal(text)
    }

    /// The text of the token, for the one place that sends it on.
    pub fn expose(&self) -> (text: &str)
        ensures
            text@ == self@,
    {
        unseal(self)
    }
}

impl Clone for BearerToken {
    /// A token with the same text.
    fn clone(&self) -> (copy: BearerToken)
        ensures
            copy@ == self@,
    {
        reseal(self)
    }
}

/// The text of an optional token.
pub open spec fn opt_token_text(token: Option<BearerToken>) -> Option<Seq<char>> {
    match token {
        Some(t) => Some(t@),
        None => None,
    }
}

} // verus!
