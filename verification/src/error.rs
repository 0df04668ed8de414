//! The library-level error type: what the engine's collaborators see
//! when an identifier does not form a URL or a URI.

use vstd::prelude::*;

verus! {

/// A top-level failure.
#[derive(Debug, Clone)]
pub enum Error {
    /// A string that is not a recognized mod page URL.
    BadModUrl { url: String },
    /// A constructed string the `http` crate rejects as a URI.
    Uri { uri: String },
}

} // verus!
