//! The API key: it is read once, from a file of the user, and a file that is
//! absent, unreadable or empty stops the invocation before it starts.

use crate::failure::{Failure, FailureView};
use crate::text::{chars_of, append_str, string_of, trim, trim_chars};
use vstd::prelude::*;

verus! {

/// What stands before the key in the authorization header.
pub const BEARER: &'static str = "Bearer ";

/// The key that the content of the key file gives: the content without the
/// white space around it. A file that could not be read, or that holds
/// nothing but white space, gives no key.
pub open spec fn key_of(content: Option<Seq<char>>) -> Result<Seq<char>, FailureView> {
    match content {
        Some(text) => if trim(text).len() == 0 {
            Err(FailureView::CredentialMissing)
        } else {
            Ok(trim(text))
        },
        None => Err(FailureView::CredentialMissing),
    }
}

/// The value of the authorization header for a key.
pub open spec fn authorization_of(key: Seq<char>) -> Seq<char> {
    BEARER@ + key
}

/// The key, from the content of the key file; `None` stands for a file that
/// could not be read.
pub fn api_key(content: Option<&str>) -> (r: Result<String, Failure>)
    ensures
        match r {
            Ok(key) => key_of(content.deep_view()) == Ok::<Seq<char>, FailureView>(key@),
            Err(e) => key_of(content.deep_view()) == Err::<Seq<char>, FailureView>(e@),
        },
{
    match content {
        Some(text) => {
            let chars = chars_of(text);
            let trimmed = trim_chars(&chars);
            if trimmed.len() == 0 {
                Err(Failure::CredentialMissing)
            } else {
                Ok(string_of(&trimmed))
            }
        },
        None => Err(Failure::CredentialMissing),
    }
}

/// The value of the authorization header for `key`.
pub fn authorization(key: &str) -> (value: String)
    ensures
        value@ == authorization_of(key@),
{
    append_str(BEARER, key)
}

} // verus!
