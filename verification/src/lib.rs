//! A small, verified core for a command-line HTTP client.
//!
//! The library validates URLs and `key=value` tokens, assembles a JSON object
//! body from the pairs (last occurrence of a key wins), plans a GET or POST
//! request, and renders a response: status line, headers in order, and the
//! body, pretty-printed when its content type's essence is `application/json`.
//! Network I/O, argument plumbing and terminal output live outside the
//! library; every function here carries a contract checked by Verus.

pub mod error;
pub mod json;
pub mod kv;
pub mod render;
pub mod request;
pub mod text;
pub mod urlcheck;
