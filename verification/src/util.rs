//! Path cosmetics and the link publisher.
//!
//! Publishing places a cached file at an install destination, preferring a
//! symbolic link and falling back to a byte copy.  The publisher here is
//! the decision half: the surrounding application attempts the link or the
//! copy and reports what the operating system said, and the publisher
//! decides what follows.  Its one piece of state is the one-way latch that
//! a permission failure flips from linking to copying for the rest of the
//! process.

use vstd::prelude::*;

verus! {

use vstd::string::StrSliceExecFns;
use vstd::string::StringExecFns;
use crate::strutil::has_prefix;
use crate::strutil::strip_prefix;

/// The UNC prefix `\\?\` as a character sequence.
pub open spec fn unc_prefix() -> Seq<char> {
    seq!['\\', '\\', '?', '\\']
}

/// `s` with every leading repetition of the UNC prefix removed.
pub open spec fn without_unc(s: Seq<char>) -> Seq<char>
    decreases s.len(),
{
    if has_prefix(s, unc_prefix()) {
        without_unc(s.skip(4))
    } else {
        s
    }
}

/// Strips the Windows UNC prefix `\\?\` from the front of a path, as many
/// times as it occurs.
pub fn remove_unc_prefix(path: &str) -> (r: String)
    ensures
        r@ == without_unc(path@),
{
    proof {
        reveal_strlit("\\\\?\\");
    }
    assert("\\\\?\\"@ =~= unc_prefix());
    let mut rest: &str = path;
    loop
        invariant
            without_unc(rest@) == without_unc(path@),
        decreases rest@.len(),
    {
        proof {
            reveal_strlit("\\\\?\\");
            assert("\\\\?\\"@ =~= unc_prefix());
        }
        match strip_prefix(rest, "\\\\?\\") {
            Some(stripped) => {
                assert(stripped@ =~= rest@.skip(4));
                rest = stripped;
            },
            None => {
                return rest.to_owned();
            },
        }
    }
}

/// Index of the last occurrence of `c` in `s`, or `-1` when absent.
pub open spec fn last_index_of(s: Seq<char>, c: char) -> int
    decreases s.len(),
{
    if s.len() == 0 {
        -1
    } else if s.last() == c {
        s.len() - 1
    } else {
        last_index_of(s.drop_last(), c)
    }
}

proof fn lemma_last_index_of(s: Seq<char>, c: char, i: int)
    requires
        0 <= i < s.len(),
        s[i] == c,
        forall|j: int| i < j < s.len() ==> s[j] != c,
    ensures
        last_index_of(s, c) == i,
    decreases s.len(),
{
    if i == s.len() - 1 {
    } else {
        assert(s.drop_last()[i] == c);
        lemma_last_index_of(s.drop_last(), c, i);
    }
}

proof fn lemma_last_index_of_none(s: Seq<char>, c: char)
    requires
        forall|j: int| 0 <= j < s.len() ==> s[j] != c,
    ensures
        last_index_of(s, c) == -1,
    decreases s.len(),
{
    if s.len() > 0 {
        lemma_last_index_of_none(s.drop_last(), c);
    }
}

/// Index of the last occurrence of `c` in `s`, if any.
pub fn rfind_char(s: &str, c: char) -> (r: Option<usize>)
    ensures
        match r {
            Some(i) => i < s@.len() && last_index_of(s@, c) == i,
            None => last_index_of(s@, c) == -1,
        },
{
    let len = s.unicode_len();
    let mut i: usize = len;
    while i > 0
        invariant
            0 <= i <= len,
            len == s@.len(),
            forall|j: int| i <= j < s@.len() ==> s@[j] != c,
        decreases i,
    {
        i -= 1;
        if s.get_char(i) == c {
            proof {
                lemma_last_index_of(s@, c, i as int);
            }
            return Some(i);
        }
    }
    proof {
        lemma_last_index_of_none(s@, c);
    }
    None
}

/// The leading portion of a slash path, up to and including its last
/// separator; empty when the path has no separator.  This is the directory
/// a file path lives in, kept with its trailing slash.
pub open spec fn parent_of(p: Seq<char>) -> Seq<char> {
    p.take(last_index_of(p, '/') + 1)
}

/// The directory part of a slash path (see [`parent_of`]).
pub fn parent_dir(p: &str) -> (r: String)
    ensures
        r@ == parent_of(p@),
{
    match rfind_char(p, '/') {
        Some(i) => {
            let len = p.unicode_len();
            p.substring_char(0, i + 1).to_owned()
        },
        None => {
            assert(p@.take(0) =~= Seq::<char>::empty());
            String::new()
        },
    }
}

/// The final component of a slash path: what follows the last separator,
/// or the whole path when there is none; `None` when that is empty.
pub open spec fn file_name_of(p: Seq<char>) -> Option<Seq<char>> {
    let rest = p.skip(last_index_of(p, '/') + 1);
    if rest.len() == 0 {
        Option::None
    } else {
        Option::Some(rest)
    }
}

/// The final component of a slash path (see [`file_name_of`]).
pub fn file_name(p: &str) -> (r: Option<String>)
    ensures
        match r {
            Some(name) => file_name_of(p@) == Option::Some(name@),
            None => file_name_of(p@) is None,
        },
{
    let len = p.unicode_len();
    match rfind_char(p, '/') {
        Some(i) => {
            if i + 1 == len {
                None
            } else {
                Some(p.substring_char(i + 1, len).to_owned())
            }
        },
        None => {
            assert(p@.skip(0) =~= p@);
            if len == 0 {
                None
            } else {
                Some(p.to_owned())
            }
        },
    }
}

/// `dir` and `name` joined with a single slash.
pub fn path_join(dir: &str, name: &str) -> (r: String)
    ensures
        r@ == dir@ + seq!['/'] + name@,
{
    let mut out = dir.to_owned();
    crate::strutil::push_char(&mut out, '/');
    out.append(name);
    assert(out@ =~= dir@ + seq!['/'] + name@);
    out
}

/// The process-wide link strategy: prefer a symbolic link until a
/// permission failure, copy ever after.
#[derive(Clone, Copy, Debug, PartialEq, Eq, Structural)]
pub enum LinkStrategy {
    PreferSymlink,
    AlwaysCopy,
}

/// What the operating system reported for an attempted symbolic link.
#[derive(Clone, Copy, Debug, PartialEq, Eq, Structural)]
pub enum SymlinkOutcome {
    /// The link was created.
    Created,
    /// The destination already exists.
    AlreadyExists,
    /// The process may not create symbolic links on this host.
    PermissionDenied,
    /// Any other I/O failure.
    Failed,
}

/// The publisher's first decision for one publish call.
#[derive(Clone, Copy, Debug, PartialEq, Eq, Structural)]
pub enum PublishAction {
    TrySymlink,
    CopyFile,
}

/// How one publish call resolves after a symlink attempt.
#[derive(Clone, Copy, Debug, PartialEq, Eq, Structural)]
pub enum PublishResolution {
    /// The link stands; nothing more to do.
    Linked,
    /// Fall back to copying the bytes, now and for every later call.
    CopyInstead,
    /// The destination already exists; the caller decides what that means.
    AlreadyExists,
    /// An I/O error to surface.
    Io,
}

/// How a whole publish call can fail, as its callers see it.
#[derive(Clone, Copy, Debug, PartialEq, Eq, Structural)]
pub enum SymlinkError {
    /// An I/O failure, from the link attempt or from the fallback copy.
    Io,
    /// The destination already exists; nothing was written over it.
    AlreadyExists,
}

/// The latch transition: a permission failure flips to `AlwaysCopy`, and
/// `AlwaysCopy` never reverts.
pub open spec fn latch_after(s: LinkStrategy, outcome: SymlinkOutcome) -> LinkStrategy {
    if s == LinkStrategy::AlwaysCopy || outcome == SymlinkOutcome::PermissionDenied {
        LinkStrategy::AlwaysCopy
    } else {
        s
    }
}

/// The latch state after a whole run of symlink outcomes.
pub open spec fn latch_run(s0: LinkStrategy, outcomes: Seq<SymlinkOutcome>) -> LinkStrategy
    decreases outcomes.len(),
{
    if outcomes.len() == 0 {
        s0
    } else {
        latch_after(latch_run(s0, outcomes.drop_last()), outcomes.last())
    }
}

/// The link publisher; holds only the strategy latch.
pub struct Publisher {
    pub strategy: LinkStrategy,
}

impl Publisher {
    /// A fresh publisher, normally starting with `PreferSymlink`.
    pub fn new(strategy: LinkStrategy) -> (p: Publisher)
        ensures
            p.strategy == strategy,
    {
        Publisher { strategy }
    }

    /// The first decision of a publish call: copy at once when the latch
    /// is flipped, otherwise attempt a symbolic link.
    pub fn plan(&self) -> (a: PublishAction)
        ensures
            a == (if self.strategy == LinkStrategy::AlwaysCopy {
                PublishAction::CopyFile
            } else {
                PublishAction::TrySymlink
            }),
    {
        match self.strategy {
            LinkStrategy::AlwaysCopy => PublishAction::CopyFile,
            LinkStrategy::PreferSymlink => PublishAction::TrySymlink,
        }
    }

    /// Resolves a symlink attempt: a created link finishes the call, an
    /// existing destination is reported to the caller, a permission
    /// failure flips the latch and falls back to a copy, and any other
    /// failure is an I/O error.
    pub fn on_symlink_outcome(&mut self, outcome: SymlinkOutcome) -> (r: PublishResolution)
        requires
            old(self).strategy == LinkStrategy::PreferSymlink,
        ensures
            final(self).strategy == latch_after(old(self).strategy, outcome),
            r == match outcome {
                SymlinkOutcome::Created => PublishResolution::Linked,
                SymlinkOutcome::AlreadyExists => PublishResolution::AlreadyExists,
                SymlinkOutcome::PermissionDenied => PublishResolution::CopyInstead,
                SymlinkOutcome::Failed => PublishResolution::Io,
            },
    {
        match outcome {
            SymlinkOutcome::Created => PublishResolution::Linked,
            SymlinkOutcome::AlreadyExists => PublishResolution::AlreadyExists,
            SymlinkOutcome::PermissionDenied => {
                self.strategy = LinkStrategy::AlwaysCopy;
                PublishResolution::CopyInstead
            },
            SymlinkOutcome::Failed => PublishResolution::Io,
        }
    }
}

/// Law: the latch never reverts.  A publisher that copies keeps copying
/// through any further run of outcomes.
pub proof fn lemma_latch_sticky(outcomes: Seq<SymlinkOutcome>)
    ensures
        latch_run(LinkStrategy::AlwaysCopy, outcomes) == LinkStrategy::AlwaysCopy,
    decreases outcomes.len(),
{
    if outcomes.len() > 0 {
        lemma_latch_sticky(outcomes.drop_last());
    }
}

/// Law: the copy fallback is permanent.  Once any symlink attempt in a run
/// reports a permission failure, the latch reads `AlwaysCopy` after every
/// later outcome, whatever those outcomes are — so every subsequent
/// publish call copies instead of linking.
pub proof fn lemma_latch_one_way(s0: LinkStrategy, outcomes: Seq<SymlinkOutcome>, i: int)
    requires
        0 <= i < outcomes.len(),
        outcomes[i] == SymlinkOutcome::PermissionDenied,
    ensures
        latch_run(s0, outcomes) == LinkStrategy::AlwaysCopy,
    decreases outcomes.len(),
{
    if i == outcomes.len() - 1 {
        assert(outcomes.last() == SymlinkOutcome::PermissionDenied);
    } else {
        lemma_latch_one_way(s0, outcomes.drop_last(), i);
    }
}

} // verus!
