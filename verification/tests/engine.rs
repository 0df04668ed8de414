//! The download engine end to end against a fake network and filesystem:
//! redirect chains, conditional fetches, both cache strategies, and the
//! publish/install path.

use std::collections::HashMap;
use std::collections::HashSet;

use modpack_tool::cache;
use modpack_tool::cache::Cacheable;
use modpack_tool::cache::FolderCache;
use modpack_tool::download::BodyAction;
use modpack_tool::download::Manager;
use modpack_tool::download::RequestSpec;
use modpack_tool::maven::Artifact;
use modpack_tool::redirect::RedirectFollower;
use modpack_tool::redirect::RedirectStep;
use modpack_tool::util::LinkStrategy;
use modpack_tool::util::Publisher;
use modpack_tool::util::PublishAction;
use modpack_tool::util::PublishResolution;
use modpack_tool::util::SymlinkError;
use modpack_tool::util::SymlinkOutcome;

/// One canned HTTP response: status, `Location` header, body.
type Canned = (u16, Option<String>, Option<Vec<u8>>);

/// A fake world: an in-memory filesystem and a scripted server that
/// counts the requests it answers.
struct World {
    files: HashMap<String, Vec<u8>>,
    dirs: HashSet<String>,
    responses: Vec<Canned>,
    requests: Vec<RequestSpec>,
    symlinks_denied: bool,
}

impl World {
    fn new() -> World {
        World {
            files: HashMap::new(),
            dirs: HashSet::new(),
            responses: Vec::new(),
            requests: Vec::new(),
            symlinks_denied: false,
        }
    }

    fn respond(&mut self, request: RequestSpec) -> Canned {
        self.requests.push(request);
        self.responses.remove(0)
    }
}

/// Drives one download: plans the request, follows redirects against the
/// scripted server, and applies the terminal body action to the fake
/// filesystem.
fn run_download(
    world: &mut World,
    url: &str,
    dest: &str,
    append_filename: bool,
    mtime: Option<i64>,
) -> Result<(), modpack_tool::download::Error> {
    let manager = Manager::new();
    let dir = manager.target_dir(dest, append_filename);
    world.dirs.insert(dir);
    let request = manager.build_request(url, mtime);
    let mut current = request.clone();
    let mut follower = RedirectFollower::new(request)?;
    loop {
        let (status, location, body) = world.respond(current);
        match follower.handle_response(status, location.as_deref())? {
            RedirectStep::Follow { request } => {
                current = request;
            },
            RedirectStep::Done { status, final_url } => {
                match manager.on_response(status, &final_url, dest, append_filename)? {
                    BodyAction::Skip => return Ok(()),
                    BodyAction::SaveTo { path } => {
                        world.files.insert(path, body.unwrap_or_default());
                        return Ok(());
                    },
                }
            },
        }
    }
}

/// One single-file `With` call against the fake world.
fn with_file<T: Cacheable>(
    world: &mut World,
    t: &T,
    root: &str,
) -> Result<String, cache::Error> {
    let is_cached = world.files.contains_key(&t.cached_path(root));
    match cache::FileCache::plan(t, root, is_cached)? {
        cache::WithPlan::AlreadyCached { path } => Ok(path),
        cache::WithPlan::NeedDownload { request } => {
            run_download(world, &request.url, &request.path, request.append_filename, None)
                .map_err(|_| cache::Error::Downloading { uri: request.url.clone() })?;
            Ok(cache::FileCache::resolved(t, root))
        },
    }
}

/// One folder `With` session against the fake world.
fn with_folder<T: Cacheable + Clone>(
    world: &mut World,
    t: &T,
    root: &str,
    attempts: u8,
) -> Result<String, cache::Error> {
    let mut session = FolderCache::new(t.clone(), root, attempts);
    loop {
        let folder = t.cached_path(root);
        let is_cached = world.dirs.contains(&folder);
        match session.next_action(is_cached)? {
            cache::FolderStep::Download { request } => {
                world.dirs.insert(folder.clone());
                run_download(world, &request.url, &request.path, request.append_filename, None)
                    .map_err(|_| cache::Error::Downloading { uri: request.url.clone() })?;
            },
            cache::FolderStep::List => {},
        }
        let prefix = format!("{}/", folder);
        let entries: Vec<String> = {
            let mut names: Vec<String> = world
                .files
                .keys()
                .filter(|k| k.starts_with(&prefix))
                .map(|k| k[prefix.len()..].to_string())
                .collect();
            names.sort();
            names
        };
        match session.on_listing(Some(&entries))? {
            cache::ListOutcome::Resolved { path } => return Ok(path),
            cache::ListOutcome::Invalidate { remove_path } => {
                world.dirs.remove(&remove_path);
                let prefix = format!("{}/", remove_path);
                world.files.retain(|k, _| !k.starts_with(&prefix));
            },
        }
    }
}

/// One publish call against the fake world.
fn publish(
    world: &mut World,
    publisher: &mut Publisher,
    src: &str,
    dst: &str,
) -> Result<(), SymlinkError> {
    match publisher.plan() {
        PublishAction::CopyFile => {
            let bytes = world.files.get(src).cloned().unwrap_or_default();
            world.files.insert(dst.to_string(), bytes);
            Ok(())
        },
        PublishAction::TrySymlink => {
            let outcome = if world.files.contains_key(dst) {
                SymlinkOutcome::AlreadyExists
            } else if world.symlinks_denied {
                SymlinkOutcome::PermissionDenied
            } else {
                SymlinkOutcome::Created
            };
            if outcome == SymlinkOutcome::Created {
                let bytes = world.files.get(src).cloned().unwrap_or_default();
                world.files.insert(dst.to_string(), bytes);
            }
            match publisher.on_symlink_outcome(outcome) {
                PublishResolution::Linked => Ok(()),
                PublishResolution::AlreadyExists => Err(SymlinkError::AlreadyExists),
                PublishResolution::CopyInstead => {
                    let bytes = world.files.get(src).cloned().unwrap_or_default();
                    world.files.insert(dst.to_string(), bytes);
                    Ok(())
                },
                PublishResolution::Io => Err(SymlinkError::Io),
            }
        },
    }
}

/// One install call: publish into a location, existing destinations
/// counting as satisfied.
fn install_at(
    world: &mut World,
    publisher: &mut Publisher,
    cached_path: &str,
    location: &str,
) -> Result<bool, cache::Error> {
    world.dirs.insert(location.to_string());
    let dest = cache::install_dest(location, cached_path);
    let published = publish(world, publisher, cached_path, &dest);
    cache::finish_install(published, cached_path, &dest)
}

fn foo_artifact() -> modpack_tool::maven::ResolvedArtifact {
    Artifact {
        group: "com.example".into(),
        artifact: "foo".into(),
        version: "1.0".into(),
        classifier: None,
        extension: None,
    }
    .resolve("https://repo.example.com/m2/")
}

#[test]
fn redirect_chain_replays_method_and_headers() {
    let mut world = World::new();
    world.responses = vec![
        (302, Some("https://mirror.example.com/hop".into()), None),
        (301, Some("/final/foo-1.0.jar".into()), None),
        (200, None, Some(b"payload".to_vec())),
    ];
    run_download(
        &mut world,
        "https://start.example.com/foo",
        "/tmp/cache/foo-1.0.jar",
        false,
        None,
    )
    .unwrap();
    assert_eq!(world.requests.len(), 3);
    let first_headers = world.requests[0].headers.clone();
    for request in &world.requests {
        assert!(matches!(request.method, modpack_tool::download::Method::Get));
        assert_eq!(request.headers, first_headers);
    }
    assert_eq!(world.requests[1].url, "https://mirror.example.com/hop");
    assert_eq!(world.requests[2].url, "https://mirror.example.com/final/foo-1.0.jar");
    assert_eq!(world.files["/tmp/cache/foo-1.0.jar"], b"payload");
}

#[test]
fn redirect_chain_to_client_error() {
    let mut world = World::new();
    world.responses = vec![
        (302, Some("https://mirror.example.com/hop".into()), None),
        (404, None, None),
    ];
    let err = run_download(
        &mut world,
        "https://start.example.com/foo",
        "/tmp/cache/foo",
        false,
        None,
    )
    .unwrap_err();
    match err {
        modpack_tool::download::Error::HttpClient { status, url } => {
            assert_eq!(status, 404);
            assert_eq!(url, "https://start.example.com/foo");
        },
        _ => panic!("expected a client error"),
    }
}

#[test]
fn redirect_without_location_is_malformed() {
    let mut world = World::new();
    world.responses = vec![(302, None, None)];
    let err = run_download(
        &mut world,
        "https://start.example.com/foo",
        "/tmp/cache/foo",
        false,
        None,
    )
    .unwrap_err();
    assert!(matches!(err, modpack_tool::download::Error::MalformedRedirect));
}

#[test]
fn server_error_and_unexpected_status() {
    let manager = Manager::new();
    let mut follower =
        RedirectFollower::new(manager.build_request("https://start.example.com/a", None)).unwrap();
    let err = follower.handle_response(500, None).unwrap_err();
    assert!(matches!(err, modpack_tool::download::Error::HttpServer));
    let mut follower2 =
        RedirectFollower::new(manager.build_request("https://start.example.com/a", None)).unwrap();
    let err2 = follower2.handle_response(204, None).unwrap_err();
    assert!(matches!(
        err2,
        modpack_tool::download::Error::UnexpectedStatus { status: 204 }
    ));
}

#[test]
fn conditional_request_carries_if_modified_since() {
    let manager = Manager::new();
    let request = manager.build_request("https://start.example.com/foo", Some(0));
    assert_eq!(request.headers.len(), 2);
    assert_eq!(request.headers[0].0, "user-agent");
    assert_eq!(request.headers[0].1, "CorrosiveModpackTool/0.0.1");
    assert_eq!(request.headers[1].0, "if-modified-since");
    assert_eq!(request.headers[1].1, "Thu, 01 Jan 1970 00:00:00 GMT");
    let plain = manager.build_request("https://start.example.com/foo", None);
    assert_eq!(plain.headers.len(), 1);
}

#[test]
fn not_modified_leaves_file_untouched() {
    let mut world = World::new();
    world
        .files
        .insert("/tmp/cache/foo-1.0.jar".to_string(), b"original".to_vec());
    world.responses = vec![(304, None, None)];
    run_download(
        &mut world,
        "https://start.example.com/foo",
        "/tmp/cache/foo-1.0.jar",
        false,
        Some(1700000000),
    )
    .unwrap();
    assert_eq!(world.files["/tmp/cache/foo-1.0.jar"], b"original");
    assert_eq!(world.requests.len(), 1);
}

#[test]
fn file_cache_populates_at_maven_path() {
    let mut world = World::new();
    world.responses = vec![(200, None, Some(b"jar bytes".to_vec()))];
    let resolved = foo_artifact();
    let path = with_file(&mut world, &resolved, "/cache/maven").unwrap();
    assert_eq!(path, "/cache/maven/com/example/foo/1.0/foo-1.0.jar");
    assert_eq!(world.files[&path], b"jar bytes");
    assert_eq!(world.requests.len(), 1);
    assert_eq!(
        world.requests[0].url,
        "https://repo.example.com/m2/com/example/foo/1.0/foo-1.0.jar"
    );
}

#[test]
fn cached_artifact_issues_no_request() {
    let mut world = World::new();
    world.responses = vec![(200, None, Some(b"jar bytes".to_vec()))];
    let resolved = foo_artifact();
    let first = with_file(&mut world, &resolved, "/cache/maven").unwrap();
    assert_eq!(world.requests.len(), 1);
    let second = with_file(&mut world, &resolved, "/cache/maven").unwrap();
    assert_eq!(second, first);
    assert_eq!(world.requests.len(), 1);
}

#[test]
fn folder_cache_resolves_redirected_download() {
    let mut world = World::new();
    world.responses = vec![
        (302, Some("https://cdn.example.com/files/My%20Mod.jar".into()), None),
        (200, None, Some(b"mod body".to_vec())),
    ];
    let m = modpack_tool::curseforge::Mod { id: "some-mod".into(), version: 123 };
    let path = with_folder(&mut world, &m, "/cache/curse", 3).unwrap();
    assert_eq!(path, "/cache/curse/some-mod/123/My Mod.jar");
    assert_eq!(world.files[&path], b"mod body");
    assert_eq!(world.requests.len(), 2);
}

#[test]
fn folder_cache_repopulates_emptied_folder() {
    let mut world = World::new();
    // The folder exists from an earlier run but was emptied by hand.
    world.dirs.insert("/cache/curse/some-mod/123".to_string());
    world.responses = vec![(200, None, Some(b"fresh body".to_vec()))];
    let m = modpack_tool::curseforge::Mod { id: "some-mod".into(), version: 123 };
    let path = with_folder(&mut world, &m, "/cache/curse", 1).unwrap();
    assert_eq!(path, "/cache/curse/some-mod/123/file");
    assert_eq!(world.files[&path], b"fresh body");
    assert_eq!(world.requests.len(), 1);
}

#[test]
fn folder_cache_gives_up_after_bounded_attempts() {
    let mut world = World::new();
    world.dirs.insert("/cache/curse/some-mod/123".to_string());
    // Every repopulation "succeeds" with an empty body written nowhere:
    // the server keeps answering, the folder keeps ending up empty.
    world.responses = vec![(304, None, None), (304, None, None), (304, None, None)];
    let m = modpack_tool::curseforge::Mod { id: "some-mod".into(), version: 123 };
    let err = with_folder(&mut world, &m, "/cache/curse", 2).unwrap_err();
    match err {
        cache::Error::CacheCorrupt { path } => {
            assert_eq!(path, "/cache/curse/some-mod/123");
        },
        _ => panic!("expected the bounded-retry failure"),
    }
    // Two invalidations were allowed, so at most three listings happened.
    assert!(world.requests.len() <= 3);
}

#[test]
fn publish_prefers_symlink_then_reports_existing() {
    let mut world = World::new();
    world.files.insert("/cache/a.jar".to_string(), b"a".to_vec());
    let mut publisher = Publisher::new(LinkStrategy::PreferSymlink);
    publish(&mut world, &mut publisher, "/cache/a.jar", "/install/a.jar").unwrap();
    assert_eq!(world.files["/install/a.jar"], b"a");
    let again = publish(&mut world, &mut publisher, "/cache/a.jar", "/install/a.jar");
    assert_eq!(again, Err(SymlinkError::AlreadyExists));
}

#[test]
fn permission_failure_latches_to_copying() {
    let mut world = World::new();
    world.files.insert("/cache/a.jar".to_string(), b"alpha".to_vec());
    world.files.insert("/cache/b.jar".to_string(), b"beta".to_vec());
    world.symlinks_denied = true;
    let mut publisher = Publisher::new(LinkStrategy::PreferSymlink);
    publish(&mut world, &mut publisher, "/cache/a.jar", "/install/a.jar").unwrap();
    assert_eq!(world.files["/install/a.jar"], b"alpha");
    assert_eq!(publisher.strategy, LinkStrategy::AlwaysCopy);
    // Every later publish copies at once, without another attempt.
    assert_eq!(publisher.plan(), PublishAction::CopyFile);
    publish(&mut world, &mut publisher, "/cache/b.jar", "/install/b.jar").unwrap();
    assert_eq!(world.files["/install/b.jar"], b"beta");
    assert_eq!(publisher.strategy, LinkStrategy::AlwaysCopy);
}

#[test]
fn install_twice_is_lazy() {
    let mut world = World::new();
    world.files.insert("/cache/a.jar".to_string(), b"alpha".to_vec());
    let mut publisher = Publisher::new(LinkStrategy::PreferSymlink);
    let first = install_at(&mut world, &mut publisher, "/cache/a.jar", "/install/libs").unwrap();
    assert!(!first);
    assert_eq!(world.files["/install/libs/a.jar"], b"alpha");
    // Tamper with the destination to show the second install rewrites
    // nothing.
    world
        .files
        .insert("/install/libs/a.jar".to_string(), b"tampered".to_vec());
    let second = install_at(&mut world, &mut publisher, "/cache/a.jar", "/install/libs").unwrap();
    assert!(second);
    assert_eq!(world.files["/install/libs/a.jar"], b"tampered");
}

#[test]
fn url_filename_is_percent_decoded() {
    assert_eq!(
        modpack_tool::download::get_url_filename("https://example.com/mods/My%20Mod.jar").unwrap(),
        "My Mod.jar"
    );
    assert!(modpack_tool::download::get_url_filename("not a url").is_err());
}

#[test]
fn failing_download_surfaces_as_cache_error() {
    let mut world = World::new();
    world.responses = vec![(500, None, None)];
    let resolved = foo_artifact();
    let err = with_file(&mut world, &resolved, "/cache/maven").unwrap_err();
    match err {
        cache::Error::Downloading { uri } => {
            assert_eq!(uri, "https://repo.example.com/m2/com/example/foo/1.0/foo-1.0.jar");
        },
        _ => panic!("expected a download failure"),
    }
}

#[test]
fn descriptor_with_invalid_uri_is_rejected() {
    let m = modpack_tool::curseforge::Mod { id: "bad id".into(), version: 1 };
    assert!(matches!(m.uri(), Err(cache::Error::BadUri)));
    assert!(matches!(
        m.project_uri(),
        Err(modpack_tool::error::Error::Uri { .. })
    ));
    let mut world = World::new();
    let err = with_folder(&mut world, &m, "/cache/curse", 3).unwrap_err();
    assert!(matches!(err, cache::Error::BadUri));
}

#[test]
fn io_failure_while_publishing_fails_install() {
    let err = cache::finish_install(Err(SymlinkError::Io), "/cache/a.jar", "/install/a.jar")
        .unwrap_err();
    match err {
        cache::Error::Symlink { from, to } => {
            assert_eq!(from, "/cache/a.jar");
            assert_eq!(to, "/install/a.jar");
        },
        _ => panic!("expected the symlink failure"),
    }
}

#[test]
fn join_surfaces_first_failure() {
    let all_ok: Vec<Result<(), modpack_tool::download::Error>> = vec![Ok(()), Ok(()), Ok(())];
    assert!(modpack_tool::download::first_failure(all_ok).is_ok());
    let mixed: Vec<Result<(), modpack_tool::download::Error>> = vec![
        Ok(()),
        Err(modpack_tool::download::Error::HttpServer),
        Err(modpack_tool::download::Error::MalformedRedirect),
    ];
    assert!(matches!(
        modpack_tool::download::first_failure(mixed),
        Err(modpack_tool::download::Error::HttpServer)
    ));
}

#[test]
fn manager_get_opens_a_chain() {
    let manager = Manager::new();
    let (request, follower) = manager.get("https://start.example.com/x").unwrap();
    assert!(matches!(request.method, modpack_tool::download::Method::Get));
    assert_eq!(request.url, "https://start.example.com/x");
    assert_eq!(request.headers.len(), 1);
    assert_eq!(request.headers[0].0, "user-agent");
    assert_eq!(follower.current_location, "https://start.example.com/x");
    assert_eq!(follower.starting_location, "https://start.example.com/x");
    assert!(matches!(
        manager.get("::not a url::"),
        Err(modpack_tool::download::Error::Url)
    ));
}

#[test]
fn digest_verification_against_published_hash() {
    let hex = b"a9993e364706816aba3e25717850c26c9cd0d89d".to_vec();
    assert_eq!(
        modpack_tool::maven::Cache::verify_outcome(true, &b"abc".to_vec(), &hex),
        modpack_tool::maven::VerifyResult::Good
    );
    assert_eq!(
        modpack_tool::maven::Cache::verify_outcome(true, &b"abd".to_vec(), &hex),
        modpack_tool::maven::VerifyResult::Bad
    );
    assert_eq!(
        modpack_tool::maven::Cache::verify_outcome(false, &b"abc".to_vec(), &hex),
        modpack_tool::maven::VerifyResult::NotInCache
    );
}
