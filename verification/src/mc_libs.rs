//! Platform library listings: the operating-system rules that decide
//! whether a listed library applies to the running system, and which
//! native classifier it carries there.  The surrounding application
//! supplies the host system and performs the resulting downloads.

use vstd::prelude::*;

verus! {

use crate::maven::opt_view;

/// An operating system a library listing can name.
#[derive(Clone, Copy, Debug, PartialEq, Eq, Structural)]
pub enum OS {
    /// macOS, named `osx` in listings.
    X,
    Windows,
    Linux,
}

/// A rule's operating-system pattern.
#[derive(Clone, Debug)]
pub struct OSSpec {
    pub name: OS,
}

impl OSSpec {
    /// Whether this pattern names the host system.
    pub fn matches(&self, current: OS) -> (r: bool)
        ensures
            r == (self.name == current),
    {
        self.name == current
    }
}

/// What a matching rule means.
#[derive(Clone, Copy, Debug, PartialEq, Eq, Structural)]
pub enum Action {
    Allow,
    Disallow,
}

/// One listing rule: an action, limited to an operating system when one
/// is named.
#[derive(Clone, Debug)]
pub struct Rule {
    pub action: Action,
    pub os: Option<OSSpec>,
}

/// Whether a rule applies on the host system: always when it names no
/// system, else when it names the host.
pub open spec fn rule_applies(r: Rule, current: OS) -> bool {
    match r.os {
        None => true,
        Some(spec) => spec.name == current,
    }
}

impl Rule {
    /// Whether this rule applies on the host system.
    pub fn os_matches(&self, current: OS) -> (r: bool)
        ensures
            r == rule_applies(*self, current),
    {
        match &self.os {
            None => true,
            Some(spec) => spec.matches(current),
        }
    }
}

/// The native artifact classifiers of a listing, one per system.
#[derive(Clone, Debug)]
pub struct Natives {
    pub linux: Option<String>,
    pub windows: Option<String>,
    pub osx: Option<String>,
}

/// Paths excluded when a native archive is extracted.
#[derive(Clone, Debug)]
pub struct Extract {
    pub exclude: Vec<String>,
}

/// One library of a platform's library list.
#[derive(Clone, Debug)]
pub struct MCLibraryListing {
    pub name: String,
    pub rules: Option<Vec<Rule>>,
    pub natives: Option<Natives>,
    pub extract: Option<Extract>,
}

impl MCLibraryListing {
    /// Whether the listing carries platform natives.
    pub fn is_native(&self) -> (r: bool)
        ensures
            r == (self.natives is Some),
    {
        self.natives.is_some()
    }

    /// The native classifier for the host system, when the listing has
    /// natives and names one for it.
    pub fn platform_native_classifier(&self, current: OS) -> (r: Option<String>)
        ensures
            opt_view(r) == match self.natives {
                None => None::<Seq<char>>,
                Some(n) => match current {
                    OS::Windows => opt_view(n.windows),
                    OS::Linux => opt_view(n.linux),
                    OS::X => opt_view(n.osx),
                },
            },
    {
        match &self.natives {
            None => None,
            Some(n) => {
                let chosen = match current {
                    OS::Windows => &n.windows,
                    OS::Linux => &n.linux,
                    OS::X => &n.osx,
                };
                match chosen {
                    Some(c) => Some(c.clone()),
                    None => None,
                }
            },
        }
    }

    /// Whether the listing's rules disallow it on the host system: some
    /// rule applies there and says `Disallow`.
    #[verifier::loop_isolation(false)]
    pub fn disallowed(&self, current: OS) -> (r: bool)
        ensures
            r == match self.rules {
                None => false,
                Some(rules) => exists|i: int|
                    0 <= i < rules@.len() && rule_applies(rules@[i], current) && rules@[i].action
                        == Action::Disallow,
            },
    {
        match &self.rules {
            None => false,
            Some(rules) => {
                let mut i: usize = 0;
                while i < rules.len()
                    invariant
                        0 <= i <= rules@.len(),
                        forall|j: int|
                            0 <= j < i ==> !(rule_applies(rules@[j], current) && rules@[j].action
                                == Action::Disallow),
                    decreases rules@.len() - i,
                {
                    let rule = &rules[i];
                    if rule.os_matches(current) && rule.action == Action::Disallow {
                        assert(rule_applies(rules@[i as int], current));
                        return true;
                    }
                    i += 1;
                }
                false
            },
        }
    }
}

} // verus!
