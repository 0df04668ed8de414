//! Maven coordinate parsing, printing, paths and repository URIs.

use modpack_tool::maven::Artifact;
use modpack_tool::maven::ArtifactParseError;
use modpack_tool::maven::ResolvedArtifact;

fn sample(classifier: Option<&str>, extension: Option<&str>) -> Artifact {
    Artifact {
        group: "net.minecraftforge.forge".into(),
        artifact: "some-jar".into(),
        version: "some-version".into(),
        classifier: classifier.map(|s| s.to_string()),
        extension: extension.map(|s| s.to_string()),
    }
}

#[test]
fn maven_parses_simple() {
    assert_eq!(
        "net.minecraftforge.forge:some-jar:some-version".parse(),
        Ok(sample(None, None))
    )
}

#[test]
fn maven_parses_with_ext() {
    assert_eq!(
        "net.minecraftforge.forge:some-jar:some-version@zip".parse(),
        Ok(sample(None, Some("zip")))
    )
}

#[test]
fn maven_parses_with_classifier() {
    assert_eq!(
        "net.minecraftforge.forge:some-jar:some-version:universal".parse(),
        Ok(sample(Some("universal"), None))
    )
}

#[test]
fn maven_parses_with_ext_and_classifier() {
    assert_eq!(
        "net.minecraftforge.forge:some-jar:some-version:universal@zip".parse(),
        Ok(sample(Some("universal"), Some("zip")))
    )
}

#[test]
fn mod_parses_simple() {
    assert_eq!(
        Artifact::from_str("net.minecraftforge.forge:some-jar:some-version"),
        Ok(sample(None, None))
    )
}

#[test]
fn mod_parses_with_ext() {
    assert_eq!(
        Artifact::from_str("net.minecraftforge.forge:some-jar:some-version@zip"),
        Ok(sample(None, Some("zip")))
    )
}

#[test]
fn mod_parses_with_classifier() {
    assert_eq!(
        Artifact::from_str("net.minecraftforge.forge:some-jar:some-version:universal"),
        Ok(sample(Some("universal"), None))
    )
}

#[test]
fn mod_parses_with_ext_and_classifier() {
    assert_eq!(
        Artifact::from_str("net.minecraftforge.forge:some-jar:some-version:universal@zip"),
        Ok(sample(Some("universal"), Some("zip")))
    )
}

#[test]
fn parse_rejects_wrong_part_count() {
    assert_eq!(
        Artifact::from_str("just-a-name"),
        Err(ArtifactParseError::BadNumberOfParts)
    );
    assert_eq!(
        Artifact::from_str("a:b:c:d:e"),
        Err(ArtifactParseError::BadNumberOfParts)
    );
}

#[test]
fn coordinate_string_round_trips() {
    let artifact = sample(Some("universal"), Some("zip"));
    let rendered = artifact.to_string();
    assert_eq!(
        rendered,
        "net.minecraftforge.forge:some-jar:some-version:universal@zip"
    );
    assert_eq!(Artifact::from_str(&rendered), Ok(artifact));
}

#[test]
fn filename_defaults_to_jar() {
    let artifact = Artifact {
        group: "com.example".into(),
        artifact: "foo".into(),
        version: "1.0".into(),
        classifier: None,
        extension: None,
    };
    assert_eq!(artifact.artifact_filename(), "foo-1.0.jar");
    assert_eq!(artifact.to_path(), "com/example/foo/1.0/foo-1.0.jar");
}

#[test]
fn filename_collision_of_default_and_explicit_jar() {
    // The cache path cannot tell an absent extension from an explicit
    // `jar`: two distinct identities, one path.
    let implicit = Artifact {
        group: "com.example".into(),
        artifact: "foo".into(),
        version: "1.0".into(),
        classifier: None,
        extension: None,
    };
    let explicit = Artifact {
        group: "com.example".into(),
        artifact: "foo".into(),
        version: "1.0".into(),
        classifier: None,
        extension: Some("jar".into()),
    };
    assert_ne!(implicit, explicit);
    assert_eq!(implicit.to_path(), explicit.to_path());
}

#[test]
fn get_uri_on_joins_repo_and_path() {
    let artifact = Artifact {
        group: "com.example".into(),
        artifact: "foo".into(),
        version: "1.0".into(),
        classifier: None,
        extension: None,
    };
    let uri = artifact.get_uri_on("https://repo.example.com/m2/").unwrap();
    assert_eq!(uri, "https://repo.example.com/m2/com/example/foo/1.0/foo-1.0.jar");
}

#[test]
fn get_uri_on_rejects_bad_base() {
    let artifact = Artifact {
        group: "com.example".into(),
        artifact: "foo".into(),
        version: "1.0".into(),
        classifier: None,
        extension: None,
    };
    assert!(matches!(
        artifact.get_uri_on("not a url"),
        Err(modpack_tool::download::Error::Url)
    ));
}

#[test]
fn sha_uri_appends_suffix_to_path() {
    let resolved = ResolvedArtifact {
        artifact: Artifact {
            group: "com.example".into(),
            artifact: "foo".into(),
            version: "1.0".into(),
            classifier: None,
            extension: None,
        },
        repo: "https://repo.example.com/m2/".into(),
    };
    assert_eq!(
        resolved.sha_uri().unwrap(),
        "https://repo.example.com/m2/com/example/foo/1.0/foo-1.0.jar.sha1"
    );
}

#[test]
fn install_dest_no_classifier_drops_classifier() {
    let resolved = ResolvedArtifact {
        artifact: Artifact {
            group: "com.example".into(),
            artifact: "foo".into(),
            version: "1.0".into(),
            classifier: Some("natives".into()),
            extension: None,
        },
        repo: "https://repo.example.com/m2/".into(),
    };
    assert_eq!(
        resolved.install_dest_no_classifier("/cache", "/install/libs"),
        "/install/libs/foo-1.0.jar"
    );
}
