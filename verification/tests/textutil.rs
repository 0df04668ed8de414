//! Path and text helpers.

use modpack_tool::cache;
use modpack_tool::util::remove_unc_prefix;

#[test]
fn test_remove_unc_prefix() {
    assert_eq!(
        remove_unc_prefix(r#"C:\foo\bar\baz"#),
        String::from(r#"C:\foo\bar\baz"#)
    );
    assert_eq!(
        remove_unc_prefix(r#"\\?\C:\foo\bar\baz"#),
        String::from(r#"C:\foo\bar\baz"#)
    );
}

#[test]
fn first_file_in_folder_takes_first_entry() {
    let entries = vec!["inner.jar".to_string(), "second.jar".to_string()];
    assert_eq!(
        cache::first_file_in_folder("/cache/folder", &entries).unwrap(),
        "/cache/folder/inner.jar"
    );
}

#[test]
fn first_file_in_empty_folder_fails() {
    let entries: Vec<String> = vec![];
    match cache::first_file_in_folder("/cache/folder", &entries) {
        Err(cache::Error::NoFilesInFolder { path }) => assert_eq!(path, "/cache/folder"),
        _ => panic!("expected the empty-folder failure"),
    }
}

#[test]
fn install_dest_appends_file_name() {
    assert_eq!(
        cache::install_dest("/install/libs", "/cache/m2/foo-1.0.jar"),
        "/install/libs/foo-1.0.jar"
    );
    assert_eq!(cache::install_dest("/install/libs", ""), "/install/libs");
}

#[test]
fn parent_dir_and_file_name() {
    assert_eq!(modpack_tool::util::parent_dir("/a/b/c.jar"), "/a/b/");
    assert_eq!(modpack_tool::util::parent_dir("c.jar"), "");
    assert_eq!(modpack_tool::util::file_name("/a/b/c.jar"), Some("c.jar".to_string()));
    assert_eq!(modpack_tool::util::file_name("/a/b/"), None);
}
