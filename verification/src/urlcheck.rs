//! URL validation. The judgement whether a string is a syntactically valid
//! absolute URL belongs to the `url` crate; the library's contract is exact
//! about everything else: an accepted string is returned unchanged, and a
//! rejected one comes back in an error that names it.

use vstd::prelude::*;
use crate::error::HttpError;

verus! {

/// Whether `url::Url::parse` accepts the string as an absolute URL.
pub uninterp spec fn url_accepted(s: Seq<char>) -> bool;

/// Relies on `url::Url::parse`: it parses an absolute URL from a string,
/// returning `Err` on a string without a valid scheme-and-rest shape, and its
/// verdict depends on the string alone.
#[verifier::external_body]
fn url_syntax_ok(s: &str) -> (r: bool)
    ensures
        r == url_accepted(s@),
{
    url::Url::parse(s).is_ok()
}

/// Validates a URL string: a syntactically valid absolute URL is accepted
/// unchanged, anything else is rejected with an error naming the input.
pub fn parse_url(s: &str) -> (r: Result<String, HttpError>)
    ensures
        r matches Ok(u) ==> u@ == s@,
        r matches Err(e) ==> e matches HttpError::InvalidUrl(t) && t@ == s@,
        r is Ok <==> url_accepted(s@),
{
    if url_syntax_ok(s) {
        Ok(s.to_owned())
    } else {
        Err(HttpError::InvalidUrl(s.to_owned()))
    }
}

} // verus!
