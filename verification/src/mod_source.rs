//! Mod sources and the modpack configuration: where each mod of a pack
//! comes from (a Curseforge page or a Maven repository), and the pack
//! edits that keep the mod list consistent.

use vstd::prelude::*;

verus! {

use vstd::string::StrSliceExecFns;
use vstd::string::StringExecFns;
use crate::curseforge::Mod;
use crate::curseforge::ReleaseStatus;
use crate::curseforge::mod_page_prefix;
use crate::maven::Artifact;
use crate::maven::ResolvedArtifact;
use crate::maven::coordinate_spec;
use crate::strutil::dec_of;
use crate::strutil::str_eq;
use crate::strutil::u64_to_string;
use crate::web::uri_ok;

/// Where one mod of a pack comes from.
#[derive(Debug, Clone)]
pub enum ModSource {
    CurseforgeMod(Mod),
    MavenMod { repo: String, artifact: Artifact },
}

impl ModSource {
    /// The version of the mod, as text.
    pub fn version_string(&self) -> (r: String)
        ensures
            r@ == match self {
                ModSource::CurseforgeMod(m) => dec_of(m.version as nat),
                ModSource::MavenMod { artifact, .. } => artifact.version@,
            },
    {
        match self {
            ModSource::CurseforgeMod(m) => u64_to_string(m.version),
            ModSource::MavenMod { artifact, .. } => artifact.version.clone(),
        }
    }

    /// The identifier of the mod: the Curseforge page id, or the whole
    /// Maven coordinate string.
    pub fn identifier_string(&self) -> (r: String)
        ensures
            r@ == match self {
                ModSource::CurseforgeMod(m) => m.id@,
                ModSource::MavenMod { artifact, .. } => coordinate_spec(*artifact),
            },
    {
        match self {
            ModSource::CurseforgeMod(m) => m.id.clone(),
            ModSource::MavenMod { artifact, .. } => artifact.to_string(),
        }
    }

    /// A project page URL for the mod, when one can be guessed: the
    /// Curseforge project page when it forms a valid URI, nothing for a
    /// Maven mod.
    pub fn guess_project_url(&self) -> (r: Option<String>)
        ensures
            match self {
                ModSource::CurseforgeMod(m) => if uri_ok(mod_page_prefix() + m.id@ + seq!['/']) {
                    (r matches Some(u) && u@ == mod_page_prefix() + m.id@ + seq!['/'])
                } else {
                    r is None
                },
                ModSource::MavenMod { .. } => r is None,
            },
    {
        match self {
            ModSource::CurseforgeMod(m) => match m.project_uri() {
                Ok(u) => Some(u),
                Err(_) => None,
            },
            ModSource::MavenMod { .. } => None,
        }
    }
}

/// The Curseforge id a source carries (meaningful for Curseforge mods).
pub open spec fn source_id(m: ModSource) -> Seq<char> {
    match m {
        ModSource::CurseforgeMod(mm) => mm.id@,
        ModSource::MavenMod { .. } => Seq::<char>::empty(),
    }
}

/// Whether `m` survives replacing mods of id `new_id`: everything but a
/// Curseforge mod of that very id.
pub open spec fn retained(m: ModSource, new_id: Seq<char>) -> bool {
    match m {
        ModSource::CurseforgeMod(mm) => mm.id@ != new_id,
        ModSource::MavenMod { .. } => true,
    }
}

/// A modpack definition: its launcher profile name, required Forge
/// build, update policy and mod list.
#[derive(Debug, Clone)]
pub struct ModpackConfig {
    pub version: String,
    pub name: String,
    pub forge: String,
    pub auto_update_release_status: Option<ReleaseStatus>,
    pub mods: Vec<ModSource>,
    pub icon: Option<String>,
}

/// What `is_alphanumeric` holds of a character; a pure function of the
/// character.
pub uninterp spec fn is_alnum(c: char) -> bool;

/// Relies on `char::is_alphanumeric`: a fixed Unicode property of the
/// character alone.
#[verifier::external_body]
fn alnum(c: char) -> (r: bool)
    ensures
        r == is_alnum(c),
{
    c.is_alphanumeric()
}

impl ModpackConfig {
    /// The pack's folder name: its name with every non-alphanumeric
    /// character replaced by an underscore.
    pub fn folder(&self) -> (r: String)
        ensures
            r@.len() == self.name@.len(),
            forall|i: int|
                0 <= i < self.name@.len() ==> r@[i] == (if is_alnum(self.name@[i]) {
                    self.name@[i]
                } else {
                    '_'
                }),
    {
        let name = self.name.as_str();
        let len = name.unicode_len();
        let mut out = String::new();
        let mut i: usize = 0;
        while i < len
            invariant
                0 <= i <= len,
                len == name@.len(),
                name@ == self.name@,
                out@.len() == i,
                forall|j: int|
                    0 <= j < i ==> out@[j] == (if is_alnum(self.name@[j]) {
                        self.name@[j]
                    } else {
                        '_'
                    }),
            decreases len - i,
        {
            let c = name.get_char(i);
            if alnum(c) {
                crate::strutil::push_char(&mut out, c);
            } else {
                crate::strutil::push_char(&mut out, '_');
            }
            i += 1;
        }
        out
    }

    /// The Forge build of this pack as a Maven artifact on the Forge
    /// repository: `net.minecraftforge:forge:<build>:universal@jar`.
    pub fn forge_maven_artifact(&self) -> (r: ResolvedArtifact)
        ensures
            r.artifact.group@ == "net.minecraftforge"@,
            r.artifact.artifact@ == "forge"@,
            r.artifact.version@ == self.forge@,
            (r.artifact.classifier matches Some(c) && c@ == "universal"@),
            (r.artifact.extension matches Some(e) && e@ == "jar"@),
            r.repo@ == "http://files.minecraftforge.net/maven/"@,
    {
        let artifact = Artifact {
            group: "net.minecraftforge".to_owned(),
            artifact: "forge".to_owned(),
            version: self.forge.clone(),
            classifier: Some("universal".to_owned()),
            extension: Some("jar".to_owned()),
        };
        artifact.resolve(crate::forge_version::base_url())
    }

    /// Replaces a mod: every Curseforge mod with the same page id leaves
    /// the list, and the new source is appended.  Only Curseforge
    /// sources can be replaced.
    #[verifier::loop_isolation(false)]
    pub fn replace_mod(&mut self, modsource: ModSource)
        requires
            modsource is CurseforgeMod,
        ensures
            final(self).mods@ == old(self).mods@.filter(
                |m: ModSource| retained(m, source_id(modsource)),
            ).push(modsource),
            final(self).version@ == old(self).version@,
            final(self).name@ == old(self).name@,
            final(self).forge@ == old(self).forge@,
            final(self).auto_update_release_status == old(self).auto_update_release_status,
            final(self).icon == old(self).icon,
    {
        let ghost pred = |m: ModSource| retained(m, source_id(modsource));
        let new_id: String = match &modsource {
            ModSource::CurseforgeMod(m) => m.id.clone(),
            ModSource::MavenMod { .. } => {
                proof {
                    assert(false);
                }
                String::new()
            },
        };
        let mut old_mods: Vec<ModSource> = Vec::new();
        core::mem::swap(&mut self.mods, &mut old_mods);
        let ghost orig = old_mods@;
        let mut kept: Vec<ModSource> = Vec::new();
        proof {
            assert(orig.take(0) =~= Seq::<ModSource>::empty());
            reveal_with_fuel(Seq::filter, 2);
            assert(orig.take(0).filter(pred) =~= Seq::<ModSource>::empty());
        }
        let ghost mut k: int = 0;
        while old_mods.len() > 0
            invariant
                0 <= k <= orig.len(),
                old_mods@ == orig.skip(k),
                kept@ == orig.take(k).filter(pred),
                new_id@ == source_id(modsource),
            decreases old_mods@.len(),
        {
            let m = old_mods.remove(0);
            proof {
                assert(m == orig[k]);
                assert(old_mods@ =~= orig.skip(k + 1));
            }
            let keep = match &m {
                ModSource::CurseforgeMod(mm) => !str_eq(mm.id.as_str(), new_id.as_str()),
                ModSource::MavenMod { .. } => true,
            };
            proof {
                assert(keep == pred(m));
                assert(orig.take(k + 1).drop_last() =~= orig.take(k));
                assert(orig.take(k + 1).last() == orig[k]);
                reveal_with_fuel(Seq::filter, 2);
            }
            if keep {
                kept.push(m);
            }
            proof {
                assert(kept@ =~= orig.take(k + 1).filter(pred));
                k = k + 1;
            }
        }
        proof {
            assert(orig.take(orig.len() as int) =~= orig);
        }
        kept.push(modsource);
        self.mods = kept;
    }

    /// Adds the mod a file URL names, replacing any older version of the
    /// same mod; a string that is not a mod file URL leaves the pack
    /// unchanged.
    pub fn add_mod_by_url(&mut self, mod_url: &str) -> (r: Result<(), crate::error::Error>)
        ensures
            match crate::curseforge::mod_from_url_spec(mod_url@) {
                Some(parsed) => (r is Ok && (exists|m: Mod|
                    (m.id@, m.version as int) == parsed && final(self).mods@ == old(
                        self,
                    ).mods@.filter(|s: ModSource| retained(s, m.id@)).push(
                        ModSource::CurseforgeMod(m),
                    ))),
                None => r is Err && final(self).mods@ == old(self).mods@,
            },
            final(self).version@ == old(self).version@,
            final(self).name@ == old(self).name@,
            final(self).forge@ == old(self).forge@,
            final(self).auto_update_release_status == old(self).auto_update_release_status,
            final(self).icon == old(self).icon,
    {
        match Mod::from_url(mod_url) {
            Ok(m) => {
                let ghost mm = m;
                self.replace_mod(ModSource::CurseforgeMod(m));
                proof {
                    assert((mm.id@, mm.version as int) == crate::curseforge::mod_from_url_spec(
                        mod_url@,
                    ).unwrap());
                }
                Ok(())
            },
            Err(e) => Err(e),
        }
    }
}

} // verus!
