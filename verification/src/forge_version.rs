//! The Forge version listing's file entries and the well-known Forge
//! repository URLs.

use vstd::prelude::*;

verus! {

use vstd::string::StringExecFns;

/// The Forge Maven repository.
pub fn base_url() -> (r: &'static str)
    ensures
        r@ == "http://files.minecraftforge.net/maven/"@,
{
    "http://files.minecraftforge.net/maven/"
}

/// The Forge version-list JSON document.
pub fn json_url() -> (r: &'static str)
    ensures
        r@ == "http://files.minecraftforge.net/maven/net/minecraftforge/forge/json/"@,
{
    "http://files.minecraftforge.net/maven/net/minecraftforge/forge/json/"
}

/// One file entry of a Forge build: its type (extension), its role, and
/// its published hash.
#[derive(Debug, Clone)]
pub struct File(pub String, pub String, pub String);

impl File {
    /// The file's type, an extension such as `zip` or `jar`.
    pub fn typ(&self) -> (r: &str)
        ensures
            r@ == self.0@,
    {
        self.0.as_str()
    }

    /// The file's role, such as `universal` or `installer`.
    pub fn role(&self) -> (r: &str)
        ensures
            r@ == self.1@,
    {
        self.1.as_str()
    }

    /// The file's published hash.
    pub fn hash(&self) -> (r: &str)
        ensures
            r@ == self.2@,
    {
        self.2.as_str()
    }
}

} // verus!
