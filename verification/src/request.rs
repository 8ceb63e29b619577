//! Planning a request. A command is either a GET of a URL or a POST of a URL
//! with key/value pairs; the plan says what is sent: the method, the URL, and
//! for a POST the JSON object body built from the pairs. Two fixed headers, a
//! marker and a user agent, go with every request.

use vstd::prelude::*;
use vstd::string::StringExecFns;
use crate::json::{build_json_body, dedup_ok, json_object, pair_views};
use crate::kv::KvPair;
use crate::render::Header;

verus! {

/// A validated command: what to request and how.
pub enum Command {
    Get { url: String },
    Post { url: String, body: Vec<KvPair> },
}

/// The HTTP method of a planned request.
#[derive(PartialEq, Eq, Structural, Clone, Copy, Debug)]
pub enum Method {
    Get,
    Post,
}

/// One request, ready to send: method, URL, and the body text if any.
pub struct RequestPlan {
    pub method: Method,
    pub url: String,
    pub body: Option<String>,
}

impl Command {
    /// Plans the one request a command stands for: a GET sends no body; a
    /// POST sends the pairs as a JSON object, the last value of a key
    /// winning.
    pub fn plan(&self) -> (r: RequestPlan)
        ensures
            self matches Command::Get { url } ==> r.method == Method::Get && r.url@ == url@
                && r.body is None,
            self matches Command::Post { url, body } ==> r.method == Method::Post && r.url@
                == url@ && (r.body matches Some(b) && exists|ds: Seq<(Seq<char>, Seq<char>)>|
                dedup_ok(pair_views(body@), ds) && b@ == json_object(ds)),
    {
        match self {
            Command::Get { url } => RequestPlan {
                method: Method::Get,
                url: url.clone(),
                body: None,
            },
            Command::Post { url, body } => RequestPlan {
                method: Method::Post,
                url: url.clone(),
                body: Some(build_json_body(body)),
            },
        }
    }
}

/// The two fixed headers that go with every request: the marker header
/// `X-POWERED-BY: Rust` and the user agent `User-Agent: Rust Httpie`.
pub fn default_headers() -> (r: Vec<Header>)
    ensures
        r@.len() == 2,
        r@[0].name@ == ("X-POWERED-BY")@ && r@[0].value@ == ("Rust")@,
        r@[1].name@ == ("User-Agent")@ && r@[1].value@ == ("Rust Httpie")@,
{
    let mut r: Vec<Header> = Vec::new();
    r.push(
        Header { name: String::from_str("X-POWERED-BY"), value: String::from_str("Rust") },
    );
    r.push(
        Header {
            name: String::from_str("User-Agent"),
            value: String::from_str("Rust Httpie"),
        },
    );
    r
}

} // verus!
