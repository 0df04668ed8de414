//! Download planning: the decisions the download manager takes around one
//! fetch.  Given the destination path and what is already on disk it
//! builds the outgoing request (fixed user agent, conditional
//! `If-Modified-Since` header), and given the terminal response it decides
//! whether anything is written and to which file — deriving the filename
//! from the post-redirect URL when the destination is a directory.

use vstd::prelude::*;

verus! {

use vstd::string::StrSliceExecFns;
use vstd::string::StringExecFns;
use crate::strutil::pct_of;
use crate::strutil::utf8_lossy;
use crate::strutil::percent_decode;
use crate::strutil::bytes_to_string_lossy;
use crate::util::parent_of;
use crate::util::parent_dir;
use crate::util::path_join;
use crate::web::segments_of;
use crate::web::url_path_segments;

/// A failure in the download engine.
#[derive(Debug, Clone)]
pub enum Error {
    /// A filesystem failure, with the offending path.
    Io { path: String },
    /// A string the `http` crate rejects as a URI.
    Uri { uri: String },
    /// A string the `url` crate rejects, or a URL without path segments.
    Url,
    /// A transport failure reported by the HTTP client.
    Hyper,
    /// A redirect response without a `Location` header.
    MalformedRedirect,
    /// A 4xx terminal status, with the originally requested URL.
    HttpClient { status: u16, url: String },
    /// A 5xx terminal status.
    HttpServer,
    /// A terminal status the engine does not handle (neither 200, 304,
    /// a followed redirect, 4xx nor 5xx).
    UnexpectedStatus { status: u16 },
    /// A cache-layer failure surfaced through a download.
    Cache,
    /// A failure while publishing a link.
    Symlink,
}

/// The request method replayed across a redirect chain.
#[derive(Clone, Copy, Debug, PartialEq, Eq, Structural)]
pub enum Method {
    Get,
    Head,
    Post,
}

/// The protocol version replayed across a redirect chain.
#[derive(Clone, Copy, Debug, PartialEq, Eq, Structural)]
pub enum HttpVersion {
    Http10,
    Http11,
    Http2,
}

/// One bodyless HTTP exchange to perform: everything the client needs.
#[derive(Debug, Clone)]
pub struct RequestSpec {
    pub method: Method,
    pub url: String,
    pub version: HttpVersion,
    pub headers: Vec<(String, String)>,
}

/// The identifying user agent sent on every request.
pub fn user_agent() -> (r: &'static str)
    ensures
        r@ == "CorrosiveModpackTool/0.0.1"@,
{
    "CorrosiveModpackTool/0.0.1"
}

/// The latest timestamp the date formatter accepts (end of year 9999).
pub const MAX_HTTP_DATE: i64 = 253402300799;

/// What chrono renders for a timestamp under the HTTP date format
/// `%a, %d %b %Y %T GMT`; a pure function of the timestamp.
pub uninterp spec fn http_date_of(secs: int) -> Seq<char>;

/// Relies on `chrono::DateTime::<Utc>::from_timestamp` (defined for this
/// whole range) and `chrono::DateTime::format`: the rendering under a
/// fixed format string in UTC depends on the timestamp alone.
#[verifier::external_body]
pub fn format_http_date(secs: i64) -> (r: String)
    requires
        0 <= secs <= MAX_HTTP_DATE,
    ensures
        r@ == http_date_of(secs as int),
{
    let date_time = chrono::DateTime::from_timestamp(secs, 0).expect("timestamp is in range");
    format!("{}", date_time.format("%a, %d %b %Y %T GMT"))
}

/// The header list every request starts from: just the user agent.
pub open spec fn base_headers_spec() -> Seq<(Seq<char>, Seq<char>)> {
    seq![("user-agent"@, "CorrosiveModpackTool/0.0.1"@)]
}

/// The headers of a conditional request: the base headers plus
/// `If-Modified-Since` for the given timestamp.
pub open spec fn conditional_headers_spec(mtime: int) -> Seq<(Seq<char>, Seq<char>)> {
    base_headers_spec().push(("if-modified-since"@, http_date_of(mtime)))
}

/// What is done with the response body once the redirect chain has
/// resolved.
#[derive(Debug, Clone)]
pub enum BodyAction {
    /// Nothing is written; the destination file stands as it is.
    Skip,
    /// The body is streamed to this file, created or truncated.
    SaveTo { path: String },
}

/// The download manager's planner.  It performs no I/O itself: the
/// surrounding application creates directories, reads timestamps,
/// performs the exchange and streams bodies as instructed.
pub struct Manager {
}

impl Manager {
    pub fn new() -> (m: Manager) {
        Manager {  }
    }

    /// Opens a redirect-following GET for `url` with the base headers:
    /// the request to perform first, and the follower that interprets
    /// each response.  Fails when the URL cannot anchor a redirect
    /// chain.
    pub fn get(&self, url: &str) -> (r: Result<
        (RequestSpec, crate::redirect::RedirectFollower),
        Error,
    >)
        ensures
            crate::web::url_ok(url@) ==> (r matches Ok(pair) && (pair.0.method == Method::Get
                && pair.0.url@ == url@ && pair.0.headers.deep_view() == base_headers_spec()
                && pair.1.method == Method::Get && pair.1.headers.deep_view()
                == base_headers_spec() && pair.1.current_location@ == url@
                && pair.1.starting_location@ == url@)),
            !crate::web::url_ok(url@) ==> (r matches Err(e) && e is Url),
    {
        let request = self.request_with_base_headers(url);
        let to_send = self.request_with_base_headers(url);
        match crate::redirect::RedirectFollower::new(request) {
            Ok(follower) => Ok((to_send, follower)),
            Err(e) => Err(e),
        }
    }

    /// The directory that must exist before the fetch: the destination
    /// itself when a server-derived filename will be appended to it, its
    /// parent otherwise.
    pub fn target_dir(&self, path: &str, append_filename: bool) -> (r: String)
        ensures
            r@ == if append_filename {
                path@
            } else {
                parent_of(path@)
            },
    {
        if append_filename {
            path.to_owned()
        } else {
            parent_dir(path)
        }
    }

    /// A GET request for `url` carrying the base headers.
    pub fn request_with_base_headers(&self, url: &str) -> (r: RequestSpec)
        ensures
            r.method == Method::Get,
            r.url@ == url@,
            r.version == HttpVersion::Http11,
            r.headers.deep_view() == base_headers_spec(),
    {
        let mut headers: Vec<(String, String)> = Vec::new();
        headers.push(("user-agent".to_owned(), user_agent().to_owned()));
        let r = RequestSpec {
            method: Method::Get,
            url: url.to_owned(),
            version: HttpVersion::Http11,
            headers,
        };
        assert(r.headers.deep_view() =~~= base_headers_spec());
        r
    }

    /// The outgoing request for one download.  When the destination file
    /// already exists its modification time is attached as an
    /// `If-Modified-Since` header, making the fetch conditional.
    pub fn build_request(&self, url: &str, existing_mtime: Option<i64>) -> (r: RequestSpec)
        requires
            existing_mtime is Some ==> 0 <= existing_mtime.unwrap() <= MAX_HTTP_DATE,
        ensures
            r.method == Method::Get,
            r.url@ == url@,
            r.version == HttpVersion::Http11,
            r.headers.deep_view() == match existing_mtime {
                Some(t) => conditional_headers_spec(t as int),
                None => base_headers_spec(),
            },
    {
        let mut request = self.request_with_base_headers(url);
        match existing_mtime {
            Some(t) => {
                let formatted = format_http_date(t);
                request.headers.push(("if-modified-since".to_owned(), formatted));
                assert(request.headers.deep_view() =~~= conditional_headers_spec(t as int));
                request
            },
            None => request,
        }
    }

    /// What to do with the terminal response of a download: a 304 leaves
    /// the destination untouched; anything else is streamed to the
    /// destination, extended by the decoded final path segment of the
    /// post-redirect URL when a filename is to be appended.
    pub fn on_response(
        &self,
        status: u16,
        final_url: &str,
        path: &str,
        append_filename: bool,
    ) -> (r: Result<BodyAction, Error>)
        ensures
            status == 304 ==> (r matches Ok(a) && a is Skip),
            status != 304 && !append_filename ==> (r matches Ok(a) && (a
                matches BodyAction::SaveTo { path: p } && p@ == path@)),
            status != 304 && append_filename ==> match segments_of(final_url@) {
                Some(segs) => (r matches Ok(a) && (a matches BodyAction::SaveTo { path: p } && p@
                    == path@ + seq!['/'] + utf8_lossy(pct_of(segs.last())))),
                None => (r matches Err(e) && e is Url),
            },
    {
        if status == 304 {
            Ok(BodyAction::Skip)
        } else if append_filename {
            let name = get_url_filename(final_url)?;
            Ok(BodyAction::SaveTo { path: path_join(path, name.as_str()) })
        } else {
            Ok(BodyAction::SaveTo { path: path.to_owned() })
        }
    }
}

/// The join of a fanned-out batch of downloads: success only when every
/// one succeeded, otherwise the first failure in order.
pub fn first_failure(results: Vec<Result<(), Error>>) -> (r: Result<(), Error>)
    ensures
        r is Ok <==> (forall|i: int| 0 <= i < results@.len() ==> results@[i] is Ok),
        r is Err ==> (exists|i: int|
            0 <= i < results@.len() && results@[i] == r && (forall|j: int|
                0 <= j < i ==> results@[j] is Ok)),
{
    let ghost all = results@;
    let len = results.len();
    let mut err_at: usize = len;
    let mut i: usize = 0;
    while i < len
        invariant
            0 <= i <= len,
            len == all.len(),
            results@ == all,
            err_at <= len,
            err_at == len ==> (forall|j: int| 0 <= j < i ==> all[j] is Ok),
            err_at < len ==> all[err_at as int] is Err && (forall|j: int|
                0 <= j < err_at ==> all[j] is Ok),
        decreases len - i,
    {
        if err_at == len {
            match &results[i] {
                Err(_) => {
                    err_at = i;
                },
                Ok(_) => {},
            }
        }
        i += 1;
    }
    if err_at < len {
        let mut results = results;
        let first = results.remove(err_at);
        assert(first == all[err_at as int]);
        first
    } else {
        Ok(())
    }
}

/// The filename a URL determines: its final path segment,
/// percent-decoded.  Fails when the URL does not parse or cannot carry
/// path segments.
pub fn get_url_filename(url: &str) -> (r: Result<String, Error>)
    ensures
        match segments_of(url@) {
            Some(segs) => r matches Ok(name) && name@ == utf8_lossy(pct_of(segs.last())),
            None => r matches Err(e) && e is Url,
        },
{
    match url_path_segments(url) {
        Some(segments) => {
            let idx = segments.len() - 1;
            let last = &segments[idx];
            proof {
                assert(segments.deep_view()[idx as int] == last@);
                assert forall|j: int| 0 <= j < last@.len() implies (last@[j] as int) < 128 by {
                    assert(segments.deep_view()[idx as int][j] == last@[j]);
                }
            }
            let decoded = percent_decode(last.as_str());
            Ok(bytes_to_string_lossy(&decoded))
        },
        None => Err(Error::Url),
    }
}

} // verus!
