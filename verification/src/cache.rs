//! The get-or-populate artifact cache.
//!
//! A `Cacheable` descriptor exposes a deterministic cache path under a
//! cache root and a source URI built from its identity.  The cache
//! guarantees the artifact is on disk: `FileCache` downloads straight to
//! the cached path, `FolderCache` populates a directory whose single
//! entry is the payload (the true filename being server-determined), and
//! the install step publishes a cached entry into a chosen location.
//!
//! Every decision is taken here; the surrounding application only checks
//! existence, downloads, lists, removes and links as instructed, and
//! reports what happened.  The folder cache's recovery from a corrupt
//! (empty or unreadable) directory is bounded: each invalidation spends
//! one attempt, and a session out of attempts fails with `CacheCorrupt`
//! instead of retrying forever.
//!
//! Concurrent `With` calls for the same uncached artifact are not
//! de-duplicated: each takes its own decision from the existence check it
//! was given, so two racing callers may both download.  The artifact ends
//! up at the same deterministic path either way.

use vstd::prelude::*;

verus! {

use vstd::string::StrSliceExecFns;
use vstd::string::StringExecFns;
use crate::util::SymlinkError;
use crate::util::file_name;
use crate::util::file_name_of;
use crate::util::path_join;

/// A failure in the cache layer.
#[derive(Debug, Clone)]
pub enum Error {
    /// Could not open a cached file, with its path.
    OpeningCached { path: String },
    /// Could not create the install directory.
    CreatingInstallDir { path: String },
    /// An I/O failure while linking `from` to `to`.
    Symlink { from: String, to: String },
    /// A download failure for this URI.
    Downloading { uri: String },
    /// Could not remove an invalid cached item.
    RemovingOldCached { path: String },
    /// The descriptor's fields do not form a valid URI.
    BadUri,
    /// Could not list a cache folder.
    FirstFileInFolder { path: String },
    /// A cache folder with no entries.
    NoFilesInFolder { path: String },
    /// A folder cache that stayed empty through every recovery attempt.
    CacheCorrupt { path: String },
}

/// The capability an artifact kind exposes to the cache: a deterministic
/// path under a cache root, and a source URI that may fail to form
/// because it is built from untrusted identifier strings.
pub trait Cacheable: Sized {
    /// The cache path as a function of the descriptor's identity alone.
    spec fn cached_path_spec(&self, root: Seq<char>) -> Seq<char>;

    /// The source URI, or `None` when the fields do not form one.
    spec fn uri_spec(&self) -> Option<Seq<char>>;

    /// The location of this artifact under `cache_root`.
    fn cached_path(&self, cache_root: &str) -> (p: String)
        ensures
            p@ == self.cached_path_spec(cache_root@),
    ;

    /// The URI the artifact is fetched from.
    fn uri(&self) -> (r: Result<String, Error>)
        ensures
            match r {
                Ok(u) => self.uri_spec() == Some(u@),
                Err(e) => self.uri_spec() is None && e is BadUri,
            },
    ;
}

/// One download the application must perform for the cache.
#[derive(Debug, Clone)]
pub struct DownloadRequest {
    pub url: String,
    pub path: String,
    pub append_filename: bool,
}

/// The decision of a single-file `With` call.
#[derive(Debug, Clone)]
pub enum WithPlan {
    /// The artifact is already on disk at this path; no request is made.
    AlreadyCached { path: String },
    /// Fetch the artifact to its cached path, then resolve to that path.
    NeedDownload { request: DownloadRequest },
}

/// The single-file population strategy: the cached path is the payload
/// file itself.
pub struct FileCache;

impl FileCache {
    /// Decides one `With` call from whether the cached path exists.  An
    /// artifact already cached is resolved at once and no request is
    /// issued; otherwise the source URI is fetched directly to the cached
    /// path, with no filename appended.
    pub fn plan<T: Cacheable>(t: &T, cache_root: &str, is_cached: bool) -> (r: Result<
        WithPlan,
        Error,
    >)
        ensures
            is_cached ==> (r matches Ok(p) && (p matches WithPlan::AlreadyCached { path } && path@
                == t.cached_path_spec(cache_root@))),
            !is_cached ==> match t.uri_spec() {
                Some(u) => (r matches Ok(p) && (p matches WithPlan::NeedDownload { request }
                    && request.url@ == u && request.path@ == t.cached_path_spec(cache_root@)
                    && request.append_filename == false)),
                None => (r matches Err(e) && e is BadUri),
            },
    {
        let path = t.cached_path(cache_root);
        if is_cached {
            Ok(WithPlan::AlreadyCached { path })
        } else {
            let url = t.uri()?;
            Ok(WithPlan::NeedDownload { request: DownloadRequest { url, path, append_filename: false } })
        }
    }

    /// The path a completed `With` call resolves to: always the cached
    /// path itself.
    pub fn resolved<T: Cacheable>(t: &T, cache_root: &str) -> (p: String)
        ensures
            p@ == t.cached_path_spec(cache_root@),
    {
        t.cached_path(cache_root)
    }
}

/// The first entry of a listed cache folder, as a full path; the folder
/// being empty is the `NoFilesInFolder` failure.
pub fn first_file_in_folder(path: &str, entries: &Vec<String>) -> (r: Result<String, Error>)
    ensures
        entries@.len() > 0 ==> (r matches Ok(p) && p@ == path@ + seq!['/']
            + entries.deep_view()[0]),
        entries@.len() == 0 ==> (r matches Err(e) && (e matches Error::NoFilesInFolder { path: p }
            && p@ == path@)),
{
    if entries.len() > 0 {
        Ok(path_join(path, entries[0].as_str()))
    } else {
        Err(Error::NoFilesInFolder { path: path.to_owned() })
    }
}

/// What the application must do next for a folder-cache session.
#[derive(Debug, Clone)]
pub enum FolderStep {
    /// Fetch the source into the cache folder, appending the
    /// server-derived filename, then list the folder.
    Download { request: DownloadRequest },
    /// The folder already exists; list it.
    List,
}

/// How a listing resolves.
#[derive(Debug, Clone)]
pub enum ListOutcome {
    /// The payload: the folder's first entry.
    Resolved { path: String },
    /// The folder is corrupt (unreadable or empty): remove it and begin
    /// the next attempt.
    Invalidate { remove_path: String },
}

/// The unpacked-folder population strategy, as a bounded session: the
/// cached path is a directory whose first entry is the payload.
pub struct FolderCache<T: Cacheable> {
    pub item: T,
    pub cache_root: String,
    pub attempts_left: u8,
}

impl<T: Cacheable> FolderCache<T> {
    /// Opens a session allowing `attempts` invalidations before the cache
    /// is declared unrecoverable.
    pub fn new(item: T, cache_root: &str, attempts: u8) -> (s: FolderCache<T>)
        ensures
            s.item == item,
            s.cache_root@ == cache_root@,
            s.attempts_left == attempts,
    {
        FolderCache { item, cache_root: cache_root.to_owned(), attempts_left: attempts }
    }

    /// The decision at the top of an attempt: download into the folder
    /// when it does not exist, then (either way) list it.
    pub fn next_action(&self, is_cached: bool) -> (r: Result<FolderStep, Error>)
        ensures
            is_cached ==> (r matches Ok(s) && s is List),
            !is_cached ==> match self.item.uri_spec() {
                Some(u) => (r matches Ok(s) && (s matches FolderStep::Download { request }
                    && request.url@ == u && request.path@ == self.item.cached_path_spec(
                    self.cache_root@,
                ) && request.append_filename == true)),
                None => (r matches Err(e) && e is BadUri),
            },
    {
        if is_cached {
            Ok(FolderStep::List)
        } else {
            let url = self.item.uri()?;
            let path = self.item.cached_path(self.cache_root.as_str());
            Ok(FolderStep::Download { request: DownloadRequest { url, path, append_filename: true } })
        }
    }

    /// Resolves a listing of the cache folder (`None` when the folder
    /// could not be read).  A folder with an entry resolves the session
    /// to that entry.  An unreadable or empty folder is invalid: while
    /// attempts remain, one is spent and the caller removes the folder
    /// and begins again; with none left the cache is unrecoverable.
    pub fn on_listing(&mut self, entries: Option<&Vec<String>>) -> (r: Result<ListOutcome, Error>)
        ensures
            final(self).item == old(self).item,
            final(self).cache_root@ == old(self).cache_root@,
            match entries {
                Some(es) if es.deep_view().len() > 0 => (r matches Ok(o) && (o
                    matches ListOutcome::Resolved { path } && path@ == old(self).item.cached_path_spec(
                    old(self).cache_root@,
                ) + seq!['/'] + es.deep_view()[0])) && final(self).attempts_left == old(
                    self,
                ).attempts_left,
                _ => if old(self).attempts_left == 0 {
                    (r matches Err(e) && (e matches Error::CacheCorrupt { path } && path@ == old(
                        self,
                    ).item.cached_path_spec(old(self).cache_root@))) && final(self).attempts_left
                        == 0
                } else {
                    (r matches Ok(o) && (o matches ListOutcome::Invalidate { remove_path }
                        && remove_path@ == old(self).item.cached_path_spec(old(self).cache_root@)))
                        && final(self).attempts_left == old(self).attempts_left - 1
                },
            },
    {
        let path = self.item.cached_path(self.cache_root.as_str());
        match entries {
            Some(es) => {
                if es.len() > 0 {
                    let resolved = first_file_in_folder(path.as_str(), es)?;
                    return Ok(ListOutcome::Resolved { path: resolved });
                }
                if self.attempts_left == 0 {
                    Err(Error::CacheCorrupt { path })
                } else {
                    self.attempts_left = self.attempts_left - 1;
                    Ok(ListOutcome::Invalidate { remove_path: path })
                }
            },
            None => {
                if self.attempts_left == 0 {
                    Err(Error::CacheCorrupt { path })
                } else {
                    self.attempts_left = self.attempts_left - 1;
                    Ok(ListOutcome::Invalidate { remove_path: path })
                }
            },
        }
    }
}

/// The destination an install writes inside `location`: the cached
/// entry's file name appended to it (or the location itself for a cached
/// path with no file name).
pub fn install_dest(location: &str, cached_path: &str) -> (r: String)
    ensures
        r@ == match file_name_of(cached_path@) {
            Some(name) => location@ + seq!['/'] + name,
            None => location@,
        },
{
    match file_name(cached_path) {
        Some(name) => path_join(location, name.as_str()),
        None => location.to_owned(),
    }
}

/// The install-is-lazy rule: a publish that found the destination already
/// present satisfies the install (the returned flag asks the caller to
/// log a warning); a publish that linked or copied satisfies it with no
/// warning; an I/O failure fails the install with both paths attached.
pub fn finish_install(published: Result<(), SymlinkError>, from: &str, to: &str) -> (r: Result<
    bool,
    Error,
>)
    ensures
        published is Ok ==> r == Ok::<bool, Error>(false),
        published == Err::<(), SymlinkError>(SymlinkError::AlreadyExists) ==> r == Ok::<
            bool,
            Error,
        >(true),
        published == Err::<(), SymlinkError>(SymlinkError::Io) ==> (r matches Err(e) && (e
            matches Error::Symlink { from: f, to: t } && f@ == from@ && t@ == to@)),
{
    match published {
        Ok(_) => Ok(false),
        Err(SymlinkError::AlreadyExists) => Ok(true),
        Err(SymlinkError::Io) => Err(
            Error::Symlink { from: from.to_owned(), to: to.to_owned() },
        ),
    }
}

} // verus!
