//! Trusted boundary to the `url` and `http` crates.
//!
//! URLs travel through the library as plain strings.  Relative-reference
//! resolution and URI validation are exactly what the outside crates
//! compute, so each call is wrapped once here, with the result named by an
//! uninterpreted function of the input strings.

use vstd::prelude::*;

verus! {

/// What resolving the reference `rel` against the base URL `base` yields:
/// the serialization of the joined URL, or `None` when the base does not
/// parse as an absolute URL or the join fails.  A pure function of the two
/// strings.
pub uninterp spec fn join_of(base: Seq<char>, rel: Seq<char>) -> Option<Seq<char>>;

/// Relies on `url::Url::parse` and `url::Url::join` (WHATWG URL standard
/// resolution): the joined URL depends on the two strings alone.
#[verifier::external_body]
pub fn url_join(base: &str, rel: &str) -> (r: Option<String>)
    ensures
        match r {
            Some(u) => join_of(base@, rel@) == Some(u@),
            None => join_of(base@, rel@) is None,
        },
{
    match url::Url::parse(base) {
        Ok(b) => match b.join(rel) {
            Ok(u) => Some(u.as_str().to_owned()),
            Err(_) => None,
        },
        Err(_) => None,
    }
}

/// Whether the string parses as an absolute URL.
pub uninterp spec fn url_ok(s: Seq<char>) -> bool;

/// Relies on `url::Url::parse`: acceptance depends on the string alone.
#[verifier::external_body]
pub fn url_parse_ok(s: &str) -> (r: bool)
    ensures
        r == url_ok(s@),
{
    url::Url::parse(s).is_ok()
}

/// The slash-separated path segments of a URL: `None` when the string does
/// not parse or the URL cannot be a base; otherwise at least one segment,
/// each a percent-encoded ASCII string.
pub uninterp spec fn segments_of(u: Seq<char>) -> Option<Seq<Seq<char>>>;

/// Relies on `url::Url::parse` and `url::Url::path_segments`: when the
/// URL parses and can be a base, the iterator yields at least one segment
/// and every segment is percent-encoded ASCII.
#[verifier::external_body]
pub fn url_path_segments(u: &str) -> (r: Option<Vec<String>>)
    ensures
        match r {
            Some(v) => segments_of(u@) == Some(v.deep_view()) && v.deep_view().len() >= 1 && (
            forall|i: int, j: int|
                0 <= i < v.deep_view().len() && 0 <= j < v.deep_view()[i].len() ==> (
                v.deep_view()[i][j] as int) < 128),
            None => segments_of(u@) is None,
        },
{
    match url::Url::parse(u) {
        Ok(parsed) => parsed.path_segments().map(|segs| segs.map(|s| s.to_owned()).collect()),
        Err(_) => None,
    }
}

/// Whether the `http` crate accepts the string as a request URI.
pub uninterp spec fn uri_ok(s: Seq<char>) -> bool;

/// Relies on `http::Uri::from_str`: acceptance depends on the string
/// alone.
#[verifier::external_body]
pub fn uri_parse_ok(s: &str) -> (r: bool)
    ensures
        r == uri_ok(s@),
{
    s.parse::<http::Uri>().is_ok()
}

} // verus!
