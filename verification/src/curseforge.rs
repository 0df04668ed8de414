//! Curseforge-hosted mods: the mod page URL grammar, the descriptor's
//! deterministic cache path and download URL, and release statuses.

use vstd::prelude::*;

verus! {

use vstd::string::StrSliceExecFns;
use vstd::string::StringExecFns;
use crate::error::Error;
use crate::strutil::dec_of;
use crate::strutil::dec_val;
use crate::strutil::digit_len;
use crate::strutil::has_prefix;
use crate::strutil::parse_u64;
use crate::strutil::span_digits;
use crate::strutil::span_till;
use crate::strutil::strip_prefix;
use crate::strutil::take_till;
use crate::strutil::u64_to_string;
use crate::web::uri_ok;
use crate::web::uri_parse_ok;

/// The prefix every recognized mod page URL starts with.
pub open spec fn mod_page_prefix() -> Seq<char> {
    "https://www.curseforge.com/minecraft/mc-mods/"@
}

/// The mod identifier a page URL names: what stands between the mod page
/// prefix and the next slash.  `None` when the URL does not carry the
/// prefix.
pub open spec fn modid_spec(url: Seq<char>) -> Option<Seq<char>> {
    if has_prefix(url, mod_page_prefix()) {
        Some(take_till(url.skip(mod_page_prefix().len() as int), '/'))
    } else {
        None
    }
}

/// Extracts the mod identifier from a mod page URL.
pub fn parse_modid_from_url(url: &str) -> (r: Result<String, Error>)
    ensures
        match r {
            Ok(id) => modid_spec(url@) == Some(id@),
            Err(e) => modid_spec(url@) is None && (e matches Error::BadModUrl { url: u } && u@
                == url@),
        },
{
    match strip_prefix(url, "https://www.curseforge.com/minecraft/mc-mods/") {
        Some(rest) => {
            assert(rest@ =~= url@.skip(mod_page_prefix().len() as int));
            let (id, _tail) = span_till(rest, '/');
            Ok(id.to_owned())
        },
        None => Err(Error::BadModUrl { url: url.to_owned() }),
    }
}

/// The identifier and version named by a mod file URL: the mod page
/// prefix, an identifier up to a slash, `/download/` or `/files/`, a
/// non-empty run of digits that fits a `u64`, and anything after it.
pub open spec fn mod_from_url_spec(url: Seq<char>) -> Option<(Seq<char>, int)> {
    if !has_prefix(url, mod_page_prefix()) {
        None
    } else {
        let rest = url.skip(mod_page_prefix().len() as int);
        let id = take_till(rest, '/');
        let tail = rest.skip(id.len() as int);
        if has_prefix(tail, "/download/"@) {
            mod_version_spec(id, tail.skip("/download/"@.len() as int))
        } else if has_prefix(tail, "/files/"@) {
            mod_version_spec(id, tail.skip("/files/"@.len() as int))
        } else {
            None
        }
    }
}

/// The version at the front of `after`: its longest digit prefix, which
/// must be non-empty and fit a `u64`.
pub open spec fn mod_version_spec(id: Seq<char>, after: Seq<char>) -> Option<(Seq<char>, int)> {
    if digit_len(after) == 0 || dec_val(after.take(digit_len(after))) > u64::MAX as int {
        None
    } else {
        Some((id, dec_val(after.take(digit_len(after)))))
    }
}

/// A Curseforge mod: its page identifier and a numeric file version.
#[derive(Debug, Clone)]
pub struct Mod {
    pub id: String,
    pub version: u64,
}

impl PartialEq for Mod {
    fn eq(&self, other: &Mod) -> (r: bool) {
        self.id == other.id && self.version == other.version
    }
}

impl vstd::std_specs::cmp::PartialEqSpecImpl for Mod {
    open spec fn obeys_eq_spec() -> bool {
        true
    }

    open spec fn eq_spec(&self, other: &Mod) -> bool {
        self.id@ == other.id@ && self.version == other.version
    }
}

impl Mod {
    /// Parses a mod file URL (a `/download/` or `/files/` page) into the
    /// mod it names.
    pub fn from_url(url: &str) -> (r: Result<Mod, Error>)
        ensures
            match r {
                Ok(m) => mod_from_url_spec(url@) == Some((m.id@, m.version as int)),
                Err(e) => mod_from_url_spec(url@) is None && (e matches Error::BadModUrl {
                    url: u,
                } && u@ == url@),
            },
    {
        match strip_prefix(url, "https://www.curseforge.com/minecraft/mc-mods/") {
            Some(rest) => {
                assert(rest@ =~= url@.skip(mod_page_prefix().len() as int));
                let (id, tail) = span_till(rest, '/');
                proof {
                    crate::strutil::lemma_first_index_bounds(rest@, '/');
                    assert(tail@ =~= rest@.skip(id@.len() as int));
                }
                let after = match strip_prefix(tail, "/download/") {
                    Some(a) => {
                        assert(a@ =~= tail@.skip("/download/"@.len() as int));
                        a
                    },
                    None => match strip_prefix(tail, "/files/") {
                        Some(a) => {
                            assert(a@ =~= tail@.skip("/files/"@.len() as int));
                            a
                        },
                        None => {
                            return Err(Error::BadModUrl { url: url.to_owned() });
                        },
                    },
                };
                let (digits, _rest) = span_digits(after);
                proof {
                    crate::strutil::lemma_digit_len_bounds(after@);
                    assert(digits@.len() == digit_len(after@));
                }
                match parse_u64(digits) {
                    Some(version) => Ok(Mod { id: id.to_owned(), version }),
                    None => Err(Error::BadModUrl { url: url.to_owned() }),
                }
            },
            None => Err(Error::BadModUrl { url: url.to_owned() }),
        }
    }

    /// The mod's project page URL, when it forms a valid URI.
    pub fn project_uri(&self) -> (r: Result<String, Error>)
        ensures
            match r {
                Ok(u) => u@ == mod_page_prefix() + self.id@ + seq!['/'] && uri_ok(u@),
                Err(e) => (e matches Error::Uri { uri } && uri@ == mod_page_prefix() + self.id@
                    + seq!['/'] && !uri_ok(uri@)),
            },
    {
        let mut loc = project_base(&self.id);
        crate::strutil::push_char(&mut loc, '/');
        if uri_parse_ok(loc.as_str()) {
            Ok(loc)
        } else {
            Err(Error::Uri { uri: loc })
        }
    }

    /// The mod's files listing URL, when it forms a valid URI.
    pub fn files_uri(&self) -> (r: Result<String, Error>)
        ensures
            match r {
                Ok(u) => u@ == mod_page_prefix() + self.id@ + "/files"@ && uri_ok(u@),
                Err(e) => (e matches Error::Uri { uri } && uri@ == mod_page_prefix() + self.id@
                    + "/files"@ && !uri_ok(uri@)),
            },
    {
        let mut loc = project_base(&self.id);
        loc.append("/files");
        if uri_parse_ok(loc.as_str()) {
            Ok(loc)
        } else {
            Err(Error::Uri { uri: loc })
        }
    }
}

/// The mod page URL up to and including the identifier.
fn project_base(id: &String) -> (r: String)
    ensures
        r@ == mod_page_prefix() + id@,
{
    let mut loc = "https://www.curseforge.com/minecraft/mc-mods/".to_owned();
    loc.append(id.as_str());
    loc
}

/// The URL a mod's payload is downloaded from.
pub open spec fn mod_download_url(id: Seq<char>, version: nat) -> Seq<char> {
    mod_page_prefix() + id + "/download/"@ + dec_of(version) + "/file"@
}

impl crate::cache::Cacheable for Mod {
    open spec fn cached_path_spec(&self, root: Seq<char>) -> Seq<char> {
        root + seq!['/'] + self.id@ + seq!['/'] + dec_of(self.version as nat)
    }

    open spec fn uri_spec(&self) -> Option<Seq<char>> {
        if uri_ok(mod_download_url(self.id@, self.version as nat)) {
            Some(mod_download_url(self.id@, self.version as nat))
        } else {
            None
        }
    }

    fn cached_path(&self, cache_root: &str) -> (p: String) {
        let mut p = cache_root.to_owned();
        crate::strutil::push_char(&mut p, '/');
        p.append(self.id.as_str());
        crate::strutil::push_char(&mut p, '/');
        let v = u64_to_string(self.version);
        p.append(v.as_str());
        assert(p@ =~= self.cached_path_spec(cache_root@));
        p
    }

    fn uri(&self) -> (r: Result<String, crate::cache::Error>) {
        let mut loc = project_base(&self.id);
        loc.append("/download/");
        let v = u64_to_string(self.version);
        loc.append(v.as_str());
        loc.append("/file");
        assert(loc@ =~= mod_download_url(self.id@, self.version as nat));
        if uri_parse_ok(loc.as_str()) {
            Ok(loc)
        } else {
            Err(crate::cache::Error::BadUri)
        }
    }
}

/// Law: cache-path determinism and distinctness for Curseforge mods.
/// The cache path is a pure function of the page id and version, so
/// equal identities always share one path; and for slash-free ids it is
/// injective — two mods with the same path under the same root have the
/// same id and the same version.
pub proof fn lemma_mod_path_injective(a: Mod, b: Mod, root: Seq<char>)
    requires
        crate::cache::Cacheable::cached_path_spec(&a, root) == crate::cache::Cacheable::cached_path_spec(&b, root),
        !crate::strutil::contains_char(a.id@, '/'),
        !crate::strutil::contains_char(b.id@, '/'),
    ensures
        a.id@ == b.id@,
        a.version == b.version,
{
    crate::strutil::lemma_dec_of_value(a.version as nat);
    crate::strutil::lemma_dec_of_value(b.version as nat);
    let da = dec_of(a.version as nat);
    let db = dec_of(b.version as nat);
    assert(!crate::strutil::contains_char(da, '/')) by {
        assert forall|i: int| 0 <= i < da.len() implies da[i] != '/' by {
            assert(crate::strutil::is_digit(da[i]));
        }
    }
    assert(!crate::strutil::contains_char(db, '/')) by {
        assert forall|i: int| 0 <= i < db.len() implies db[i] != '/' by {
            assert(crate::strutil::is_digit(db[i]));
        }
    }
    let xa = root + seq!['/'] + a.id@;
    let xb = root + seq!['/'] + b.id@;
    assert(crate::cache::Cacheable::cached_path_spec(&a, root) =~= xa + seq!['/'] + da);
    assert(crate::cache::Cacheable::cached_path_spec(&b, root) =~= xb + seq!['/'] + db);
    crate::strutil::lemma_sep_join_injective(xa, da, xb, db, '/');
    crate::strutil::lemma_sep_join_injective(root, a.id@, root, b.id@, '/');
}

/// How far a Curseforge file release has been promoted.
#[derive(Debug, Clone, Copy, PartialEq, Eq, Structural)]
pub enum ReleaseStatus {
    Release,
    Beta,
    Alpha,
}

/// A status string that names no known release status.
#[derive(Debug, Clone)]
pub struct UnknownVariant(pub String);

/// Which statuses a chosen acceptance level admits: `Release` only
/// releases, `Beta` also betas, `Alpha` everything.
pub open spec fn accepts_spec(s: ReleaseStatus, other: ReleaseStatus) -> bool {
    match s {
        ReleaseStatus::Release => other == ReleaseStatus::Release,
        ReleaseStatus::Beta => other == ReleaseStatus::Beta || other == ReleaseStatus::Release,
        ReleaseStatus::Alpha => true,
    }
}

impl ReleaseStatus {
    /// The status's canonical name.
    pub fn value(self) -> (r: &'static str)
        ensures
            self == ReleaseStatus::Release ==> r@ == "Release"@,
            self == ReleaseStatus::Beta ==> r@ == "Beta"@,
            self == ReleaseStatus::Alpha ==> r@ == "Alpha"@,
    {
        match self {
            ReleaseStatus::Release => "Release",
            ReleaseStatus::Beta => "Beta",
            ReleaseStatus::Alpha => "Alpha",
        }
    }

    /// Whether a file of status `other` is acceptable at this level.
    /// Each level accepts its own status and everything a stricter level
    /// accepts.
    pub fn accepts(self, other: ReleaseStatus) -> (r: bool)
        ensures
            r == accepts_spec(self, other),
        decreases (match self {
            ReleaseStatus::Release => 0int,
            ReleaseStatus::Beta => 1int,
            ReleaseStatus::Alpha => 2int,
        }),
    {
        other == self || match self {
            ReleaseStatus::Release => false,
            ReleaseStatus::Beta => ReleaseStatus::Release.accepts(other),
            ReleaseStatus::Alpha => ReleaseStatus::Beta.accepts(other),
        }
    }

    /// Parses the one-letter form `R`, `B` or `A`.
    pub fn parse_short(s: &str) -> (r: Result<ReleaseStatus, UnknownVariant>)
        ensures
            match r {
                Ok(st) => (s@ == "R"@ && st == ReleaseStatus::Release) || (s@ == "B"@ && st
                    == ReleaseStatus::Beta) || (s@ == "A"@ && st == ReleaseStatus::Alpha),
                Err(u) => s@ != "R"@ && s@ != "B"@ && s@ != "A"@ && u.0@ == s@,
            },
    {
        if crate::strutil::str_eq(s, "R") {
            Ok(ReleaseStatus::Release)
        } else if crate::strutil::str_eq(s, "B") {
            Ok(ReleaseStatus::Beta)
        } else if crate::strutil::str_eq(s, "A") {
            Ok(ReleaseStatus::Alpha)
        } else {
            Err(UnknownVariant(s.to_owned()))
        }
    }

    /// Parses the full form `Release`, `Beta` or `Alpha`.
    pub fn from_str(s: &str) -> (r: Result<ReleaseStatus, UnknownVariant>)
        ensures
            match r {
                Ok(st) => (s@ == "Release"@ && st == ReleaseStatus::Release) || (s@ == "Beta"@
                    && st == ReleaseStatus::Beta) || (s@ == "Alpha"@ && st
                    == ReleaseStatus::Alpha),
                Err(u) => s@ != "Release"@ && s@ != "Beta"@ && s@ != "Alpha"@ && u.0@ == s@,
            },
    {
        if crate::strutil::str_eq(s, "Release") {
            Ok(ReleaseStatus::Release)
        } else if crate::strutil::str_eq(s, "Beta") {
            Ok(ReleaseStatus::Beta)
        } else if crate::strutil::str_eq(s, "Alpha") {
            Ok(ReleaseStatus::Alpha)
        } else {
            Err(UnknownVariant(s.to_owned()))
        }
    }
}

} // verus!
