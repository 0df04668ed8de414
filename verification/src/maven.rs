//! Maven-shaped artifacts: coordinates `group:artifact:version` with an
//! optional classifier and extension, their deterministic cache paths,
//! their repository URIs, and the optional SHA-1 verification of a cached
//! payload against the repository's `.sha1` file.

use vstd::prelude::*;

verus! {

use vstd::string::StrSliceExecFns;
use vstd::string::StringExecFns;
use crate::strutil::contains_char;
use crate::strutil::push_char;
use crate::strutil::replace_char;
use crate::strutil::split_char;
use crate::strutil::split_spec;

/// A Maven coordinate.  The classifier and extension are optional; an
/// absent extension means `jar` on disk.
#[derive(Debug, Clone)]
pub struct Artifact {
    pub group: String,
    pub artifact: String,
    pub version: String,
    pub classifier: Option<String>,
    pub extension: Option<String>,
}

/// Why a coordinate string failed to parse.
#[derive(Debug, Clone, Copy, PartialEq, Eq, Structural)]
pub enum ArtifactParseError {
    BadNumberOfParts,
}

/// The view of an optional string.
pub open spec fn opt_view(o: Option<String>) -> Option<Seq<char>> {
    match o {
        Some(s) => Some(s@),
        None => None,
    }
}

/// The group rendered as a path: every `.` becomes a `/`.
pub open spec fn group_path_spec(group: Seq<char>) -> Seq<char> {
    Seq::new(group.len(), |i: int| if group[i] == '.' {
        '/'
    } else {
        group[i]
    })
}

/// The on-disk filename: `artifact-version[-classifier].extension`, the
/// extension defaulting to `jar`.
pub open spec fn filename_spec(a: Artifact) -> Seq<char> {
    a.artifact@ + seq!['-'] + a.version@ + (match a.classifier {
        Some(c) => seq!['-'] + c@,
        None => Seq::<char>::empty(),
    }) + seq!['.'] + (match a.extension {
        Some(e) => e@,
        None => "jar"@,
    })
}

/// The artifact's path under a repository or cache root:
/// `group-as-path/artifact/version/filename`.
pub open spec fn to_path_spec(a: Artifact) -> Seq<char> {
    group_path_spec(a.group@) + seq!['/'] + a.artifact@ + seq!['/'] + a.version@ + seq!['/']
        + filename_spec(a)
}

/// The coordinate string: `group:artifact:version`, `:classifier` when
/// present, `@extension` when present.
pub open spec fn coordinate_spec(a: Artifact) -> Seq<char> {
    a.group@ + seq![':'] + a.artifact@ + seq![':'] + a.version@ + (match a.classifier {
        Some(c) => seq![':'] + c@,
        None => Seq::<char>::empty(),
    }) + (match a.extension {
        Some(e) => seq!['@'] + e@,
        None => Seq::<char>::empty(),
    })
}

/// The part of a coordinate string before its extension: everything up
/// to the `@` when the string has exactly one, the whole string
/// otherwise.
pub open spec fn coordinate_base(s: Seq<char>) -> Seq<char> {
    if split_spec(s, '@').len() == 2 {
        split_spec(s, '@')[0]
    } else {
        s
    }
}

/// The extension of a coordinate string: what follows a single `@`.
pub open spec fn coordinate_ext(s: Seq<char>) -> Option<Seq<char>> {
    if split_spec(s, '@').len() == 2 {
        Some(split_spec(s, '@')[1])
    } else {
        None
    }
}

/// The colon-separated pieces of a coordinate string's base.
pub open spec fn coordinate_parts(s: Seq<char>) -> Seq<Seq<char>> {
    split_spec(coordinate_base(s), ':')
}

impl Artifact {
    /// The on-disk filename of this coordinate.
    pub fn artifact_filename(&self) -> (r: String)
        ensures
            r@ == filename_spec(*self),
    {
        let mut out = self.artifact.clone();
        push_char(&mut out, '-');
        out.append(self.version.as_str());
        match &self.classifier {
            Some(c) => {
                push_char(&mut out, '-');
                out.append(c.as_str());
            },
            None => {},
        }
        push_char(&mut out, '.');
        match &self.extension {
            Some(e) => {
                out.append(e.as_str());
            },
            None => {
                out.append("jar");
            },
        }
        assert(out@ =~= filename_spec(*self));
        out
    }

    /// The group as a path, dots becoming slashes.
    pub fn group_path(&self) -> (r: String)
        ensures
            r@ == group_path_spec(self.group@),
    {
        let r = replace_char(self.group.as_str(), '.', '/');
        assert(r@ =~= group_path_spec(self.group@));
        r
    }

    /// The artifact's path under a repository or cache root.
    pub fn to_path(&self) -> (r: String)
        ensures
            r@ == to_path_spec(*self),
    {
        let mut out = self.group_path();
        push_char(&mut out, '/');
        out.append(self.artifact.as_str());
        push_char(&mut out, '/');
        out.append(self.version.as_str());
        push_char(&mut out, '/');
        let name = self.artifact_filename();
        out.append(name.as_str());
        assert(out@ =~= to_path_spec(*self));
        out
    }

    /// The coordinate string for this artifact.
    pub fn to_string(&self) -> (r: String)
        ensures
            r@ == coordinate_spec(*self),
    {
        let mut out = self.group.clone();
        push_char(&mut out, ':');
        out.append(self.artifact.as_str());
        push_char(&mut out, ':');
        out.append(self.version.as_str());
        match &self.classifier {
            Some(c) => {
                push_char(&mut out, ':');
                out.append(c.as_str());
            },
            None => {},
        }
        match &self.extension {
            Some(e) => {
                push_char(&mut out, '@');
                out.append(e.as_str());
            },
            None => {},
        }
        assert(out@ =~= coordinate_spec(*self));
        out
    }

    /// Parses a coordinate string.  A single `@` splits off the
    /// extension; the remainder must be three or four colon-separated
    /// pieces: group, artifact, version, and an optional classifier.
    pub fn from_str(s: &str) -> (r: Result<Artifact, ArtifactParseError>)
        ensures
            match r {
                Ok(a) => (coordinate_parts(s@).len() == 3 || coordinate_parts(s@).len() == 4)
                    && a.group@ == coordinate_parts(s@)[0] && a.artifact@ == coordinate_parts(
                    s@,
                )[1] && a.version@ == coordinate_parts(s@)[2] && opt_view(a.classifier) == (
                if coordinate_parts(s@).len() == 4 {
                    Some(coordinate_parts(s@)[3])
                } else {
                    None
                }) && opt_view(a.extension) == coordinate_ext(s@),
                Err(e) => coordinate_parts(s@).len() != 3 && coordinate_parts(s@).len() != 4 && e
                    == ArtifactParseError::BadNumberOfParts,
            },
    {
        let at_parts = split_char(s, '@');
        let (base, ext): (String, Option<String>) = if at_parts.len() == 2 {
            let mut at_parts = at_parts;
            let e = at_parts.pop().unwrap();
            let b = at_parts.pop().unwrap();
            proof {
                assert(b@ == coordinate_base(s@));
                assert(opt_view(Some(e)) == coordinate_ext(s@));
            }
            (b, Some(e))
        } else {
            proof {
                assert(s@ == coordinate_base(s@));
            }
            (s.to_owned(), None)
        };
        let mut parts = split_char(base.as_str(), ':');
        if parts.len() == 3 {
            let version = parts.pop().unwrap();
            let artifact = parts.pop().unwrap();
            let group = parts.pop().unwrap();
            Ok(Artifact { group, artifact, version, classifier: None, extension: ext })
        } else if parts.len() == 4 {
            let classifier = parts.pop().unwrap();
            let version = parts.pop().unwrap();
            let artifact = parts.pop().unwrap();
            let group = parts.pop().unwrap();
            Ok(
                Artifact {
                    group,
                    artifact,
                    version,
                    classifier: Some(classifier),
                    extension: ext,
                },
            )
        } else {
            Err(ArtifactParseError::BadNumberOfParts)
        }
    }
}

impl core::str::FromStr for Artifact {
    type Err = ArtifactParseError;

    fn from_str(s: &str) -> Result<Artifact, ArtifactParseError> {
        Artifact::from_str(s)
    }
}

impl PartialEq for Artifact {
    fn eq(&self, other: &Artifact) -> (r: bool) {
        let classifier_eq = match (&self.classifier, &other.classifier) {
            (Some(a), Some(b)) => *a == *b,
            (None, None) => true,
            _ => false,
        };
        let extension_eq = match (&self.extension, &other.extension) {
            (Some(a), Some(b)) => *a == *b,
            (None, None) => true,
            _ => false,
        };
        self.group == other.group && self.artifact == other.artifact && self.version
            == other.version && classifier_eq && extension_eq
    }
}

impl vstd::std_specs::cmp::PartialEqSpecImpl for Artifact {
    open spec fn obeys_eq_spec() -> bool {
        true
    }

    open spec fn eq_spec(&self, other: &Artifact) -> bool {
        self.group@ == other.group@ && self.artifact@ == other.artifact@ && self.version@
            == other.version@ && opt_view(self.classifier) == opt_view(other.classifier)
            && opt_view(self.extension) == opt_view(other.extension)
    }
}

proof fn lemma_piece_free_of(s: Seq<char>, t: Seq<char>, c: char)
    requires
        !contains_char(s, c),
        !contains_char(t, c),
    ensures
        !contains_char(s + t, c),
{
    crate::strutil::lemma_concat_contains(s, t, c);
}

/// Law: printing then parsing is the identity.  For an artifact whose
/// group, name, version and classifier hold no `:` or `@`, and whose
/// extension holds no `@`, the coordinate string `to_string` prints
/// splits back into exactly those fields — so, by the contracts of
/// `to_string` and `from_str`, parsing the printed string returns the
/// artifact unchanged.
pub proof fn lemma_coordinate_round_trip(a: Artifact)
    requires
        !contains_char(a.group@, ':'),
        !contains_char(a.group@, '@'),
        !contains_char(a.artifact@, ':'),
        !contains_char(a.artifact@, '@'),
        !contains_char(a.version@, ':'),
        !contains_char(a.version@, '@'),
        (a.classifier matches Some(c) ==> !contains_char(c@, ':') && !contains_char(c@, '@')),
        (a.extension matches Some(e) ==> !contains_char(e@, '@')),
    ensures
        coordinate_ext(coordinate_spec(a)) == opt_view(a.extension),
        coordinate_parts(coordinate_spec(a)).len() == (if a.classifier is Some {
            4int
        } else {
            3int
        }),
        coordinate_parts(coordinate_spec(a))[0] == a.group@,
        coordinate_parts(coordinate_spec(a))[1] == a.artifact@,
        coordinate_parts(coordinate_spec(a))[2] == a.version@,
        (a.classifier matches Some(c) ==> coordinate_parts(coordinate_spec(a))[3] == c@),
{
    let s = coordinate_spec(a);
    let classifier_part = match a.classifier {
        Some(c) => seq![':'] + c@,
        None => Seq::<char>::empty(),
    };
    let base = a.group@ + seq![':'] + a.artifact@ + seq![':'] + a.version@ + classifier_part;
    assert(!contains_char(seq![':'], '@'));
    assert(!contains_char(Seq::<char>::empty(), '@'));
    assert(!contains_char(classifier_part, '@')) by {
        if a.classifier is Some {
            lemma_piece_free_of(seq![':'], a.classifier.unwrap()@, '@');
        }
    }
    assert(!contains_char(base, '@')) by {
        lemma_piece_free_of(a.group@, seq![':'], '@');
        lemma_piece_free_of(a.group@ + seq![':'], a.artifact@, '@');
        lemma_piece_free_of(a.group@ + seq![':'] + a.artifact@, seq![':'], '@');
        lemma_piece_free_of(a.group@ + seq![':'] + a.artifact@ + seq![':'], a.version@, '@');
        lemma_piece_free_of(
            a.group@ + seq![':'] + a.artifact@ + seq![':'] + a.version@,
            classifier_part,
            '@',
        );
    }
    match a.extension {
        Some(e) => {
            assert(s =~= base + seq!['@'] + e@);
            crate::strutil::lemma_split_prepend(base, e@, '@');
            crate::strutil::lemma_split_no_sep(e@, '@');
            assert(split_spec(s, '@') =~~= seq![base, e@]);
            assert(coordinate_base(s) == base);
            assert(coordinate_ext(s) == Some(e@));
        },
        None => {
            assert(s =~= base);
            crate::strutil::lemma_split_no_sep(base, '@');
            assert(split_spec(s, '@').len() == 1);
            assert(coordinate_base(s) == s);
        },
    }
    let tail_av = match a.classifier {
        Some(c) => a.version@ + seq![':'] + c@,
        None => a.version@,
    };
    assert(split_spec(tail_av, ':') =~~= (match a.classifier {
        Some(c) => seq![a.version@, c@],
        None => seq![a.version@],
    })) by {
        match a.classifier {
            Some(c) => {
                crate::strutil::lemma_split_prepend(a.version@, c@, ':');
                crate::strutil::lemma_split_no_sep(c@, ':');
            },
            None => {
                crate::strutil::lemma_split_no_sep(a.version@, ':');
            },
        }
    }
    let tail_art = a.artifact@ + seq![':'] + tail_av;
    crate::strutil::lemma_split_prepend(a.artifact@, tail_av, ':');
    assert(base =~= a.group@ + seq![':'] + tail_art);
    crate::strutil::lemma_split_prepend(a.group@, tail_art, ':');
    assert(coordinate_parts(s) =~~= seq![a.group@] + (seq![a.artifact@] + split_spec(
        tail_av,
        ':',
    )));
}

proof fn lemma_piece_no_slash(s: Seq<char>, t: Seq<char>)
    requires
        !contains_char(s, '/'),
        !contains_char(t, '/'),
    ensures
        !contains_char(s + t, '/'),
{
    crate::strutil::lemma_concat_contains(s, t, '/');
}

proof fn lemma_filename_no_slash(a: Artifact)
    requires
        !contains_char(a.artifact@, '/'),
        !contains_char(a.version@, '/'),
        (a.classifier matches Some(c) ==> !contains_char(c@, '/')),
        (a.extension matches Some(e) ==> !contains_char(e@, '/')),
    ensures
        !contains_char(filename_spec(a), '/'),
{
    assert(!contains_char(seq!['-'], '/'));
    assert(!contains_char(seq!['.'], '/'));
    assert(!contains_char("jar"@, '/')) by {
        reveal_strlit("jar");
    }
    let part1 = a.artifact@ + seq!['-'];
    lemma_piece_no_slash(a.artifact@, seq!['-']);
    let part2 = part1 + a.version@;
    lemma_piece_no_slash(part1, a.version@);
    let classifier_part = match a.classifier {
        Some(c) => seq!['-'] + c@,
        None => Seq::<char>::empty(),
    };
    if a.classifier is Some {
        lemma_piece_no_slash(seq!['-'], a.classifier.unwrap()@);
    }
    assert(!contains_char(classifier_part, '/'));
    let part3 = part2 + classifier_part;
    lemma_piece_no_slash(part2, classifier_part);
    let part4 = part3 + seq!['.'];
    lemma_piece_no_slash(part3, seq!['.']);
    let ext_part = match a.extension {
        Some(e) => e@,
        None => "jar"@,
    };
    assert(!contains_char(ext_part, '/'));
    lemma_piece_no_slash(part4, ext_part);
    assert(filename_spec(a) == part4 + ext_part);
}

/// Law: cache-path determinism and distinctness.  The artifact path is a
/// pure function of the coordinate fields, so two descriptors with the
/// same identity always resolve to the same cache path; and for
/// coordinates whose fields are free of the path separator it is
/// injective in the group, name and version — two such artifacts with
/// the same path agree on all three.  (The classifier and extension are
/// genuinely not recoverable from the path: an absent extension and an
/// explicit `jar` produce the same file.)
pub proof fn lemma_to_path_injective(a: Artifact, b: Artifact)
    requires
        to_path_spec(a) == to_path_spec(b),
        !contains_char(a.group@, '/'),
        !contains_char(b.group@, '/'),
        !contains_char(a.artifact@, '/'),
        !contains_char(b.artifact@, '/'),
        !contains_char(a.version@, '/'),
        !contains_char(b.version@, '/'),
        (a.classifier matches Some(c) ==> !contains_char(c@, '/')),
        (b.classifier matches Some(c) ==> !contains_char(c@, '/')),
        (a.extension matches Some(e) ==> !contains_char(e@, '/')),
        (b.extension matches Some(e) ==> !contains_char(e@, '/')),
    ensures
        a.group@ == b.group@,
        a.artifact@ == b.artifact@,
        a.version@ == b.version@,
{
    lemma_filename_no_slash(a);
    lemma_filename_no_slash(b);
    let ga = group_path_spec(a.group@);
    let gb = group_path_spec(b.group@);
    let xa = ga + seq!['/'] + a.artifact@ + seq!['/'] + a.version@;
    let xb = gb + seq!['/'] + b.artifact@ + seq!['/'] + b.version@;
    assert(to_path_spec(a) =~= xa + seq!['/'] + filename_spec(a));
    assert(to_path_spec(b) =~= xb + seq!['/'] + filename_spec(b));
    crate::strutil::lemma_sep_join_injective(xa, filename_spec(a), xb, filename_spec(b), '/');
    let ya = ga + seq!['/'] + a.artifact@;
    let yb = gb + seq!['/'] + b.artifact@;
    assert(xa =~= ya + seq!['/'] + a.version@);
    assert(xb =~= yb + seq!['/'] + b.version@);
    crate::strutil::lemma_sep_join_injective(ya, a.version@, yb, b.version@, '/');
    crate::strutil::lemma_sep_join_injective(ga, a.artifact@, gb, b.artifact@, '/');
    assert(a.group@.len() == b.group@.len());
    assert forall|i: int| 0 <= i < a.group@.len() implies a.group@[i] == b.group@[i] by {
        assert(ga[i] == gb[i]);
        assert(a.group@[i] != '/' && b.group@[i] != '/') by {
            assert(!(exists|k: int| 0 <= k < a.group@.len() && a.group@[k] == '/'));
            assert(!(exists|k: int| 0 <= k < b.group@.len() && b.group@[k] == '/'));
        }
    }
    assert(a.group@ =~= b.group@);
}

/// An artifact pinned to a repository base URL.
#[derive(Debug, Clone)]
pub struct ResolvedArtifact {
    pub artifact: Artifact,
    pub repo: String,
}

impl Artifact {
    /// Pins this artifact to a repository.
    pub fn resolve(&self, repo_uri: &str) -> (r: ResolvedArtifact)
        ensures
            r.artifact == *self,
            r.repo@ == repo_uri@,
    {
        ResolvedArtifact { artifact: self.clone_artifact(), repo: repo_uri.to_owned() }
    }

    /// A field-for-field copy.
    pub fn clone_artifact(&self) -> (r: Artifact)
        ensures
            r == *self,
    {
        Artifact {
            group: self.group.clone(),
            artifact: self.artifact.clone(),
            version: self.version.clone(),
            classifier: match &self.classifier {
                Some(c) => Some(c.clone()),
                None => None,
            },
            extension: match &self.extension {
                Some(e) => Some(e.clone()),
                None => None,
            },
        }
    }

    /// The artifact's URI on the repository `base`: the artifact path
    /// resolved against it.  Fails when the base does not parse or the
    /// joined URL is not an acceptable URI.
    pub fn get_uri_on(&self, base: &str) -> (r: Result<String, crate::download::Error>)
        ensures
            match crate::web::join_of(base@, to_path_spec(*self)) {
                Some(u) => if crate::web::uri_ok(u) {
                    (r matches Ok(out) && out@ == u)
                } else {
                    (r matches Err(e) && (e matches crate::download::Error::Uri { uri } && uri@
                        == u))
                },
                None => (r matches Err(e) && e is Url),
            },
    {
        let path = self.to_path();
        match crate::web::url_join(base, path.as_str()) {
            Some(joined) => {
                if crate::web::uri_parse_ok(joined.as_str()) {
                    Ok(joined)
                } else {
                    Err(crate::download::Error::Uri { uri: joined })
                }
            },
            None => Err(crate::download::Error::Url),
        }
    }
}

/// `a` with its classifier removed.
pub open spec fn without_classifier(a: Artifact) -> Artifact {
    Artifact {
        group: a.group,
        artifact: a.artifact,
        version: a.version,
        classifier: None,
        extension: a.extension,
    }
}

impl crate::cache::Cacheable for ResolvedArtifact {
    open spec fn cached_path_spec(&self, root: Seq<char>) -> Seq<char> {
        root + seq!['/'] + to_path_spec(self.artifact)
    }

    open spec fn uri_spec(&self) -> Option<Seq<char>> {
        match crate::web::join_of(self.repo@, to_path_spec(self.artifact)) {
            Some(u) => if crate::web::uri_ok(u) {
                Some(u)
            } else {
                None
            },
            None => None,
        }
    }

    fn cached_path(&self, cache_root: &str) -> (p: String) {
        let r = crate::util::path_join(cache_root, self.artifact.to_path().as_str());
        assert(r@ =~= self.cached_path_spec(cache_root@));
        r
    }

    fn uri(&self) -> (r: Result<String, crate::cache::Error>) {
        match self.artifact.get_uri_on(self.repo.as_str()) {
            Ok(u) => Ok(u),
            Err(_) => Err(crate::cache::Error::BadUri),
        }
    }
}

/// Where a URL's path component ends: the index of the first `?` or `#`,
/// or the whole length when it has neither.
pub open spec fn end_of_path(u: Seq<char>) -> int
    decreases u.len(),
{
    if u.len() == 0 {
        0
    } else if u[0] == '?' || u[0] == '#' {
        0
    } else {
        1 + end_of_path(u.skip(1))
    }
}

proof fn lemma_end_of_path_at(u: Seq<char>, i: int)
    requires
        0 <= i < u.len(),
        u[i] == '?' || u[i] == '#',
        forall|j: int| 0 <= j < i ==> u[j] != '?' && u[j] != '#',
    ensures
        end_of_path(u) == i,
    decreases i,
{
    if i > 0 {
        assert(u.skip(1)[i - 1] == u[i]);
        assert(forall|j: int| 0 <= j < i - 1 ==> u.skip(1)[j] == u[j + 1]);
        lemma_end_of_path_at(u.skip(1), i - 1);
    }
}

proof fn lemma_end_of_path_none(u: Seq<char>)
    requires
        forall|j: int| 0 <= j < u.len() ==> u[j] != '?' && u[j] != '#',
    ensures
        end_of_path(u) == u.len(),
    decreases u.len(),
{
    if u.len() > 0 {
        assert(forall|j: int| 0 <= j < u.skip(1).len() ==> u.skip(1)[j] == u[j + 1]);
        lemma_end_of_path_none(u.skip(1));
    }
}

/// The URI with `.sha1` appended to its path component, before any query
/// or fragment.
pub open spec fn sha_suffix_spec(u: Seq<char>) -> Seq<char> {
    u.take(end_of_path(u)) + ".sha1"@ + u.skip(end_of_path(u))
}

/// Appends `.sha1` to the path component of a URI string.
fn sha_suffix(u: &str) -> (r: String)
    ensures
        r@ == sha_suffix_spec(u@),
{
    let len = u.unicode_len();
    let q = crate::strutil::find_char(u, '?');
    let h = crate::strutil::find_char(u, '#');
    let e: usize = match (q, h) {
        (None, None) => {
            proof {
                lemma_end_of_path_none(u@);
            }
            len
        },
        (Some(a), None) => {
            proof {
                lemma_end_of_path_at(u@, a as int);
            }
            a
        },
        (None, Some(b)) => {
            proof {
                lemma_end_of_path_at(u@, b as int);
            }
            b
        },
        (Some(a), Some(b)) => {
            let m = if a < b {
                a
            } else {
                b
            };
            proof {
                lemma_end_of_path_at(u@, m as int);
            }
            m
        },
    };
    let mut out = u.substring_char(0, e).to_owned();
    out.append(".sha1");
    out.append(u.substring_char(e, len));
    assert(out@ =~= sha_suffix_spec(u@));
    out
}

impl ResolvedArtifact {
    /// The artifact's path (its location relative to a root).
    pub fn to_path(&self) -> (r: String)
        ensures
            r@ == to_path_spec(self.artifact),
    {
        self.artifact.to_path()
    }

    /// The artifact's URI on its repository.
    pub fn uri(&self) -> (r: Result<String, crate::download::Error>)
        ensures
            match crate::web::join_of(self.repo@, to_path_spec(self.artifact)) {
                Some(u) => if crate::web::uri_ok(u) {
                    (r matches Ok(out) && out@ == u)
                } else {
                    (r matches Err(e) && (e matches crate::download::Error::Uri { uri } && uri@
                        == u))
                },
                None => (r matches Err(e) && e is Url),
            },
    {
        self.artifact.get_uri_on(self.repo.as_str())
    }

    /// The URI of the artifact's `.sha1` digest file: the artifact URI
    /// with `.sha1` appended to its path.
    pub fn sha_uri(&self) -> (r: Result<String, crate::download::Error>)
        ensures
            match crate::web::join_of(self.repo@, to_path_spec(self.artifact)) {
                Some(u) => if crate::web::uri_ok(u) {
                    if crate::web::uri_ok(sha_suffix_spec(u)) {
                        (r matches Ok(out) && out@ == sha_suffix_spec(u))
                    } else {
                        (r matches Err(e) && (e matches crate::download::Error::Uri { uri } && uri@
                            == sha_suffix_spec(u)))
                    }
                } else {
                    (r matches Err(e) && (e matches crate::download::Error::Uri { uri } && uri@
                        == u))
                },
                None => (r matches Err(e) && e is Url),
            },
    {
        let base = self.uri()?;
        let suffixed = sha_suffix(base.as_str());
        if crate::web::uri_parse_ok(suffixed.as_str()) {
            Ok(suffixed)
        } else {
            Err(crate::download::Error::Uri { uri: suffixed })
        }
    }

    /// The destination an install without classifier writes inside
    /// `location`: the file name the artifact would have with no
    /// classifier, appended to the location.
    pub fn install_dest_no_classifier(&self, cache_root: &str, location: &str) -> (r: String)
        ensures
            r@ == match crate::util::file_name_of(
                cache_root@ + seq!['/'] + to_path_spec(without_classifier(self.artifact)),
            ) {
                Some(name) => location@ + seq!['/'] + name,
                None => location@,
            },
    {
        let stripped = Artifact {
            group: self.artifact.group.clone(),
            artifact: self.artifact.artifact.clone(),
            version: self.artifact.version.clone(),
            classifier: None,
            extension: match &self.artifact.extension {
                Some(e) => Some(e.clone()),
                None => None,
            },
        };
        let cached = crate::util::path_join(cache_root, stripped.to_path().as_str());
        assert(cached@ =~= cache_root@ + seq!['/'] + to_path_spec(without_classifier(
            self.artifact,
        )));
        crate::cache::install_dest(location, cached.as_str())
    }
}

/// The outcome of digest verification for a cached artifact.
#[derive(Debug, Clone, Copy, PartialEq, Eq, Structural)]
pub enum VerifyResult {
    /// The cached bytes hash to what the repository publishes.
    Good,
    /// They do not.
    Bad,
    /// Nothing is cached to verify.
    NotInCache,
}

/// The SHA-1 digest of a byte string: twenty bytes, a pure function of
/// the input.
pub uninterp spec fn sha1_of(data: Seq<u8>) -> Seq<u8>;

/// Relies on the `sha1` crate's `Digest::digest`: SHA-1 is deterministic
/// in the input bytes and its digest is twenty bytes long.
#[verifier::external_body]
fn sha1_digest(data: &Vec<u8>) -> (r: Vec<u8>)
    ensures
        r@ == sha1_of(data@),
        r@.len() == 20,
{
    <sha1::Sha1 as sha1::Digest>::digest(data.as_slice()).to_vec()
}

/// A character sequence read as bytes, one per character.
pub open spec fn chars_as_bytes(s: Seq<char>) -> Seq<u8> {
    Seq::new(s.len(), |i: int| s[i] as u8)
}

/// The single-file cache for Maven artifacts, with its digest check.
pub struct Cache;

impl Cache {
    /// One `With` decision for a resolved artifact (see
    /// [`crate::cache::FileCache::plan`]).
    pub fn with_plan(artifact: &ResolvedArtifact, cache_root: &str, is_cached: bool) -> (r: Result<
        crate::cache::WithPlan,
        crate::cache::Error,
    >)
        ensures
            is_cached ==> (r matches Ok(p) && (p matches crate::cache::WithPlan::AlreadyCached {
                path,
            } && path@ == cache_root@ + seq!['/'] + to_path_spec(artifact.artifact))),
            !is_cached ==> match crate::cache::Cacheable::uri_spec(artifact) {
                Some(u) => (r matches Ok(p) && (p
                    matches crate::cache::WithPlan::NeedDownload { request } && request.url@ == u
                    && request.path@ == cache_root@ + seq!['/'] + to_path_spec(artifact.artifact)
                    && request.append_filename == false)),
                None => (r matches Err(e) && e is BadUri),
            },
    {
        crate::cache::FileCache::plan(artifact, cache_root, is_cached)
    }

    /// The verdict of a verification pass: nothing to verify without a
    /// cached file; otherwise the repository's `.sha1` body must equal,
    /// byte for byte, the lowercase hexadecimal SHA-1 of the cached
    /// bytes.
    pub fn verify_outcome(is_cached: bool, cached_bytes: &Vec<u8>, sha_body: &Vec<u8>) -> (r:
        VerifyResult)
        ensures
            !is_cached ==> r == VerifyResult::NotInCache,
            is_cached ==> r == (if sha_body@ == chars_as_bytes(
                crate::strutil::hex_of(sha1_of(cached_bytes@)),
            ) {
                VerifyResult::Good
            } else {
                VerifyResult::Bad
            }),
    {
        if !is_cached {
            return VerifyResult::NotInCache;
        }
        let digest = sha1_digest(cached_bytes);
        let hex = crate::strutil::to_hex(&digest);
        let hex_str = hex.as_str();
        let hex_len = hex_str.unicode_len();
        if hex_len != sha_body.len() {
            assert(sha_body@ != chars_as_bytes(hex@));
            return VerifyResult::Bad;
        }
        let mut i: usize = 0;
        while i < hex_len
            invariant
                is_cached,
                hex@ == crate::strutil::hex_of(sha1_of(cached_bytes@)),
                0 <= i <= hex_len,
                hex_str@ == hex@,
                hex_len == hex@.len(),
                hex_len == sha_body@.len(),
                forall|j: int| 0 <= j < i ==> sha_body@[j] == (hex@[j] as u8),
            decreases hex_len - i,
        {
            let c = hex_str.get_char(i);
            if (c as u8) != sha_body[i] {
                assert(sha_body@ != chars_as_bytes(hex@)) by {
                    assert(chars_as_bytes(hex@)[i as int] == (hex@[i as int] as u8));
                }
                return VerifyResult::Bad;
            }
            i += 1;
        }
        assert(sha_body@ =~= chars_as_bytes(hex@));
        VerifyResult::Good
    }
}

} // verus!
