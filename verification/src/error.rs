//! The library's error type. Every variant carries the offending input, so an
//! error message always names what was rejected.

use vstd::prelude::*;
use vstd::string::StringExecFns;

verus! {

/// An error of this library.
#[derive(Debug)]
pub enum HttpError {
    /// The string is not a syntactically valid absolute URL.
    InvalidUrl(String),
    /// The command-line token has no `=` separator.
    InvalidPair(String),
    /// The response body was declared JSON but could not be reformatted.
    InvalidJson(String),
}

/// The message of each error: a fixed prefix followed by the offending input.
pub open spec fn spec_message(e: HttpError) -> Seq<char> {
    match e {
        HttpError::InvalidUrl(s) => ("Failed to parse URL ")@ + s@,
        HttpError::InvalidPair(s) => ("Failed to parse ")@ + s@,
        HttpError::InvalidJson(s) => ("Failed to pretty-print JSON body ")@ + s@,
    }
}

impl HttpError {
    /// A printable description that names the offending input.
    pub fn message(&self) -> (r: String)
        ensures
            r@ == spec_message(*self),
    {
        match self {
            HttpError::InvalidUrl(s) => String::from_str("Failed to parse URL ").concat(
                s.as_str(),
            ),
            HttpError::InvalidPair(s) => String::from_str("Failed to parse ").concat(s.as_str()),
            HttpError::InvalidJson(s) => String::from_str("Failed to pretty-print JSON body ")
                .concat(s.as_str()),
        }
    }
}

} // verus!
