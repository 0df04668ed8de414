//! Curseforge descriptors, release statuses, mod sources and pack edits.

use modpack_tool::cache::Cacheable;
use modpack_tool::curseforge::Mod;
use modpack_tool::curseforge::ReleaseStatus;
use modpack_tool::curseforge::parse_modid_from_url;
use modpack_tool::error::Error;
use modpack_tool::forge_version::File;
use modpack_tool::mc_libs::Action;
use modpack_tool::mc_libs::MCLibraryListing;
use modpack_tool::mc_libs::Natives;
use modpack_tool::mc_libs::OS;
use modpack_tool::mc_libs::OSSpec;
use modpack_tool::mc_libs::Rule;
use modpack_tool::mod_source::ModSource;
use modpack_tool::mod_source::ModpackConfig;

#[test]
fn modid_from_project_url() {
    assert_eq!(
        parse_modid_from_url("https://www.curseforge.com/minecraft/mc-mods/some-mod/files").unwrap(),
        "some-mod"
    );
    assert_eq!(
        parse_modid_from_url("https://www.curseforge.com/minecraft/mc-mods/bare-id").unwrap(),
        "bare-id"
    );
}

#[test]
fn modid_rejects_other_urls() {
    assert!(matches!(
        parse_modid_from_url("https://example.com/minecraft/mc-mods/some-mod"),
        Err(Error::BadModUrl { .. })
    ));
}

#[test]
fn mod_from_download_url() {
    let m = Mod::from_url(
        "https://www.curseforge.com/minecraft/mc-mods/some-mod/download/123456/file",
    )
    .unwrap();
    assert_eq!(m.id, "some-mod");
    assert_eq!(m.version, 123456);
}

#[test]
fn mod_from_files_url() {
    let m = Mod::from_url("https://www.curseforge.com/minecraft/mc-mods/some-mod/files/98765")
        .unwrap();
    assert_eq!(m.id, "some-mod");
    assert_eq!(m.version, 98765);
}

#[test]
fn mod_from_url_rejects_missing_version() {
    assert!(matches!(
        Mod::from_url("https://www.curseforge.com/minecraft/mc-mods/some-mod/download/"),
        Err(Error::BadModUrl { .. })
    ));
}

#[test]
fn mod_from_url_rejects_oversized_version() {
    assert!(matches!(
        Mod::from_url(
            "https://www.curseforge.com/minecraft/mc-mods/some-mod/download/18446744073709551616"
        ),
        Err(Error::BadModUrl { .. })
    ));
}

#[test]
fn mod_cached_path_and_uri() {
    let m = Mod { id: "some-mod".into(), version: 123456 };
    assert_eq!(m.cached_path("/cache/curse"), "/cache/curse/some-mod/123456");
    assert_eq!(
        m.uri().unwrap(),
        "https://www.curseforge.com/minecraft/mc-mods/some-mod/download/123456/file"
    );
    assert_eq!(
        m.project_uri().unwrap(),
        "https://www.curseforge.com/minecraft/mc-mods/some-mod/"
    );
    assert_eq!(
        m.files_uri().unwrap(),
        "https://www.curseforge.com/minecraft/mc-mods/some-mod/files"
    );
}

#[test]
fn release_status_values() {
    assert_eq!(ReleaseStatus::Release.value(), "Release");
    assert_eq!(ReleaseStatus::Beta.value(), "Beta");
    assert_eq!(ReleaseStatus::Alpha.value(), "Alpha");
}

#[test]
fn release_status_accepts_widens() {
    assert!(ReleaseStatus::Release.accepts(ReleaseStatus::Release));
    assert!(!ReleaseStatus::Release.accepts(ReleaseStatus::Beta));
    assert!(!ReleaseStatus::Release.accepts(ReleaseStatus::Alpha));
    assert!(ReleaseStatus::Beta.accepts(ReleaseStatus::Release));
    assert!(ReleaseStatus::Beta.accepts(ReleaseStatus::Beta));
    assert!(!ReleaseStatus::Beta.accepts(ReleaseStatus::Alpha));
    assert!(ReleaseStatus::Alpha.accepts(ReleaseStatus::Release));
    assert!(ReleaseStatus::Alpha.accepts(ReleaseStatus::Beta));
    assert!(ReleaseStatus::Alpha.accepts(ReleaseStatus::Alpha));
}

#[test]
fn release_status_parses() {
    assert!(matches!(ReleaseStatus::parse_short("R"), Ok(ReleaseStatus::Release)));
    assert!(matches!(ReleaseStatus::parse_short("B"), Ok(ReleaseStatus::Beta)));
    assert!(matches!(ReleaseStatus::parse_short("A"), Ok(ReleaseStatus::Alpha)));
    assert!(ReleaseStatus::parse_short("X").is_err());
    assert!(matches!(ReleaseStatus::from_str("Release"), Ok(ReleaseStatus::Release)));
    assert!(matches!(ReleaseStatus::from_str("Beta"), Ok(ReleaseStatus::Beta)));
    assert!(matches!(ReleaseStatus::from_str("Alpha"), Ok(ReleaseStatus::Alpha)));
    assert!(ReleaseStatus::from_str("release").is_err());
}

#[test]
fn forge_file_getters() {
    let f = File("zip".into(), "universal".into(), "0123abcd".into());
    assert_eq!(f.typ(), "zip");
    assert_eq!(f.role(), "universal");
    assert_eq!(f.hash(), "0123abcd");
}

#[test]
fn library_rules_decide_platforms() {
    let listing = MCLibraryListing {
        name: "org.lwjgl:lwjgl:2.9.4".into(),
        rules: Some(vec![
            Rule { action: Action::Allow, os: None },
            Rule { action: Action::Disallow, os: Some(OSSpec { name: OS::X }) },
        ]),
        natives: Some(Natives {
            linux: Some("natives-linux".into()),
            windows: Some("natives-windows".into()),
            osx: None,
        }),
        extract: None,
    };
    assert!(listing.is_native());
    assert!(listing.disallowed(OS::X));
    assert!(!listing.disallowed(OS::Linux));
    assert_eq!(
        listing.platform_native_classifier(OS::Linux).as_deref(),
        Some("natives-linux")
    );
    assert_eq!(listing.platform_native_classifier(OS::X), None);
    let plain = MCLibraryListing {
        name: "com.google.guava:guava:17.0".into(),
        rules: None,
        natives: None,
        extract: None,
    };
    assert!(!plain.is_native());
    assert!(!plain.disallowed(OS::Windows));
}

fn pack(mods: Vec<ModSource>) -> ModpackConfig {
    ModpackConfig {
        version: "1.0".into(),
        name: "My Pack!".into(),
        forge: "14.23.5.2860".into(),
        auto_update_release_status: Some(ReleaseStatus::Beta),
        mods,
        icon: None,
    }
}

#[test]
fn folder_replaces_non_alphanumerics() {
    assert_eq!(pack(vec![]).folder(), "My_Pack_");
}

#[test]
fn forge_artifact_coordinates() {
    let resolved = pack(vec![]).forge_maven_artifact();
    assert_eq!(resolved.artifact.group, "net.minecraftforge");
    assert_eq!(resolved.artifact.artifact, "forge");
    assert_eq!(resolved.artifact.version, "14.23.5.2860");
    assert_eq!(resolved.artifact.classifier.as_deref(), Some("universal"));
    assert_eq!(resolved.artifact.extension.as_deref(), Some("jar"));
    assert_eq!(resolved.repo, "http://files.minecraftforge.net/maven/");
}

#[test]
fn replace_mod_swaps_same_id() {
    let keepers = ModSource::CurseforgeMod(Mod { id: "other".into(), version: 1 });
    let old = ModSource::CurseforgeMod(Mod { id: "target".into(), version: 1 });
    let mut config = pack(vec![keepers, old]);
    config.replace_mod(ModSource::CurseforgeMod(Mod { id: "target".into(), version: 2 }));
    assert_eq!(config.mods.len(), 2);
    match &config.mods[0] {
        ModSource::CurseforgeMod(m) => assert_eq!(m.id, "other"),
        _ => panic!("unexpected source"),
    }
    match &config.mods[1] {
        ModSource::CurseforgeMod(m) => {
            assert_eq!(m.id, "target");
            assert_eq!(m.version, 2);
        },
        _ => panic!("unexpected source"),
    }
}

#[test]
fn add_mod_by_url_appends_parsed_mod() {
    let mut config = pack(vec![]);
    config
        .add_mod_by_url("https://www.curseforge.com/minecraft/mc-mods/new-mod/download/42/file")
        .unwrap();
    assert_eq!(config.mods.len(), 1);
    match &config.mods[0] {
        ModSource::CurseforgeMod(m) => {
            assert_eq!(m.id, "new-mod");
            assert_eq!(m.version, 42);
        },
        _ => panic!("unexpected source"),
    }
    assert!(config.add_mod_by_url("https://example.com/nope").is_err());
    assert_eq!(config.mods.len(), 1);
}

#[test]
fn mod_source_strings() {
    let curse = ModSource::CurseforgeMod(Mod { id: "some-mod".into(), version: 77 });
    assert_eq!(curse.version_string(), "77");
    assert_eq!(curse.identifier_string(), "some-mod");
    assert_eq!(
        curse.guess_project_url().as_deref(),
        Some("https://www.curseforge.com/minecraft/mc-mods/some-mod/")
    );
    let maven = ModSource::MavenMod {
        repo: "https://repo.example.com/m2/".into(),
        artifact: "com.example:foo:1.0".parse().unwrap(),
    };
    assert_eq!(maven.version_string(), "1.0");
    assert_eq!(maven.identifier_string(), "com.example:foo:1.0");
    assert_eq!(maven.guess_project_url(), None);
}
