//! Verified core of an HTTP client library: header, query-parameter and cookie
//! collections, URL helpers, authentication, multipart bodies, status codes,
//! redirects, response decoding and client configuration.
use vstd::prelude::*;

pub mod auth;
pub mod body;
pub mod ci_headers;
pub mod codecs;
pub mod config;
pub mod decoding;
pub mod error;
pub mod cookies;
pub mod header_compare;
pub mod headers;
pub mod json;
pub mod laws;
pub mod multipart;
pub mod prepare;
pub mod profiling;
pub mod query_law;
pub mod queryparams;
pub mod redirect;
pub mod request_url;
pub mod response_body;
pub mod status;
pub mod streaming;
pub mod text;
pub mod timeouts;
pub mod url_build;
pub mod url_checks;
pub mod url_edit;
pub mod url_model;
pub mod url_parts;
pub mod url_text;

verus! {

} // verus!
