//! The redirect follower: a chain of HTTP redirects made to behave like
//! one logical request.
//!
//! The follower holds the original method, headers and protocol version
//! and replays them on every hop; only the current location changes, by
//! resolving each `Location` header against it.  The surrounding
//! application performs the exchanges: it sends the request a `Follow`
//! step hands it and feeds the response's status and `Location` header
//! back in, until a terminal step or an error ends the chain.
//!
//! Because `handle_response` keeps the method, header list, version and
//! starting location of the follower unchanged in every case, and every
//! `Follow` request copies them from the follower, each hop of a chain
//! replays exactly the method and headers the chain started with.

use vstd::prelude::*;

verus! {

use vstd::string::StringExecFns;
use crate::download::Error;
use crate::download::HttpVersion;
use crate::download::Method;
use crate::download::RequestSpec;
use crate::web::join_of;
use crate::web::uri_ok;
use crate::web::uri_parse_ok;
use crate::web::url_join;
use crate::web::url_ok;
use crate::web::url_parse_ok;

/// The redirect statuses that are followed.
pub open spec fn is_redirect_status(status: u16) -> bool {
    status == 301 || status == 302 || status == 307
}

/// The statuses that end a chain successfully: a plain success, or the
/// not-modified answer to a conditional request, which the download
/// manager interprets.
pub open spec fn is_terminal_status(status: u16) -> bool {
    status == 200 || status == 304
}

/// What the application must do next with a redirect chain.
#[derive(Debug)]
pub enum RedirectStep {
    /// Perform this exchange and report its response.
    Follow { request: RequestSpec },
    /// The chain has resolved; the last response is the answer, and this
    /// is the URL it came from.
    Done { status: u16, final_url: String },
}

/// One redirect chain in flight.
pub struct RedirectFollower {
    pub method: Method,
    pub headers: Vec<(String, String)>,
    pub version: HttpVersion,
    pub current_location: String,
    pub starting_location: String,
}

impl RedirectFollower {
    /// Opens a chain for `request`, which the caller then performs as the
    /// first exchange.  Fails when the URL crate cannot parse the request
    /// URL, since later `Location` headers could not be resolved against
    /// it.
    pub fn new(request: RequestSpec) -> (r: Result<RedirectFollower, Error>)
        ensures
            url_ok(request.url@) ==> (r matches Ok(f) && f.method == request.method
                && f.headers.deep_view() == request.headers.deep_view() && f.version
                == request.version && f.current_location@ == request.url@
                && f.starting_location@ == request.url@),
            !url_ok(request.url@) ==> (r matches Err(e) && e is Url),
    {
        if url_parse_ok(request.url.as_str()) {
            let RequestSpec { method, url, version, headers } = request;
            let current_location = url.clone();
            Ok(
                RedirectFollower {
                    method,
                    headers,
                    version,
                    current_location,
                    starting_location: url,
                },
            )
        } else {
            Err(Error::Url)
        }
    }

    /// Decides what one response means for the chain.  A redirect status
    /// resolves the `Location` header against the current location and
    /// replays the original request there; a missing header is a
    /// malformed redirect.  A 4xx fails with the original starting URL
    /// attached, a 5xx fails as a server error, a terminal status ends
    /// the chain at the current location, and anything else is an
    /// unexpected status.
    pub fn handle_response(&mut self, status: u16, location: Option<&str>) -> (r: Result<
        RedirectStep,
        Error,
    >)
        ensures
            final(self).method == old(self).method,
            final(self).headers.deep_view() == old(self).headers.deep_view(),
            final(self).version == old(self).version,
            final(self).starting_location@ == old(self).starting_location@,
            !is_redirect_status(status) ==> final(self).current_location@ == old(
                self,
            ).current_location@,
            is_redirect_status(status) ==> match location {
                Some(loc) => match join_of(old(self).current_location@, loc@) {
                    Some(next) => if uri_ok(next) {
                        (r matches Ok(step) && (step matches RedirectStep::Follow { request }
                            && request.method == old(self).method && request.headers.deep_view()
                            == old(self).headers.deep_view() && request.version == old(
                            self,
                        ).version && request.url@ == next)) && final(self).current_location@
                            == next
                    } else {
                        (r matches Err(e) && (e matches Error::Uri { uri } && uri@ == next))
                    },
                    None => (r matches Err(e) && e is Url),
                },
                None => (r matches Err(e) && e is MalformedRedirect),
            },
            is_terminal_status(status) ==> (r matches Ok(step) && (step
                matches RedirectStep::Done { status: st, final_url } && st == status && final_url@
                == old(self).current_location@)),
            400 <= status < 500 ==> (r matches Err(e) && (e matches Error::HttpClient {
                status: st,
                url,
            } && st == status && url@ == old(self).starting_location@)),
            500 <= status < 600 ==> (r matches Err(e) && e is HttpServer),
            !is_redirect_status(status) && !is_terminal_status(status) && !(400 <= status < 600)
                ==> (r matches Err(e) && (e matches Error::UnexpectedStatus { status: st } && st
                == status)),
    {
        if status == 301 || status == 302 || status == 307 {
            match location {
                Some(loc) => {
                    match url_join(self.current_location.as_str(), loc) {
                        Some(next) => {
                            if uri_parse_ok(next.as_str()) {
                                let request = RequestSpec {
                                    method: self.method,
                                    url: next.clone(),
                                    version: self.version,
                                    headers: clone_headers(&self.headers),
                                };
                                self.current_location = next;
                                Ok(RedirectStep::Follow { request })
                            } else {
                                Err(Error::Uri { uri: next })
                            }
                        },
                        None => Err(Error::Url),
                    }
                },
                None => Err(Error::MalformedRedirect),
            }
        } else if status == 200 || status == 304 {
            Ok(
                RedirectStep::Done {
                    status,
                    final_url: self.current_location.clone(),
                },
            )
        } else if 400 <= status && status < 500 {
            Err(Error::HttpClient { status, url: self.starting_location.clone() })
        } else if 500 <= status && status < 600 {
            Err(Error::HttpServer)
        } else {
            Err(Error::UnexpectedStatus { status })
        }
    }
}

/// A copy of a header list, pair by pair.
fn clone_headers(headers: &Vec<(String, String)>) -> (r: Vec<(String, String)>)
    ensures
        r.deep_view() == headers.deep_view(),
{
    let mut out: Vec<(String, String)> = Vec::new();
    let mut i: usize = 0;
    while i < headers.len()
        invariant
            0 <= i <= headers@.len(),
            out@.len() == i,
            forall|j: int| 0 <= j < i ==> out.deep_view()[j] == headers.deep_view()[j],
        decreases headers@.len() - i,
    {
        let name = headers[i].0.clone();
        let value = headers[i].1.clone();
        out.push((name, value));
        i += 1;
    }
    assert(out.deep_view() =~~= headers.deep_view());
    out
}

} // verus!
