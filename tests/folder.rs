use repo_analyzer::error::ConnectorError;
use repo_analyzer::folder::{join_path, FolderConnector};

#[test]
fn missing_root_is_refused() {
    assert!(matches!(
        FolderConnector::new("/no/such/dir".to_string(), false, false),
        Err(ConnectorError::RootNotFound)
    ));
}

#[test]
fn root_and_manifest_are_kept() {
    let c = FolderConnector::new("proj".to_string(), true, true).unwrap();
    assert_eq!(c.root_path(), "proj");
    assert!(c.has_package_json());
    let d = FolderConnector::new("proj".to_string(), true, false).unwrap();
    assert!(!d.has_package_json());
}

#[test]
fn walked_files_get_paths_relative_to_root() {
    let c = FolderConnector::new("proj".to_string(), true, false).unwrap();
    assert_eq!(c.relative_path("proj/src/a.js", true), Some("src/a.js".to_string()));
    assert_eq!(c.relative_path("proj/src", false), None);
    assert_eq!(c.relative_path("project/a.js", true), None);
    assert_eq!(c.relative_path("other/a.js", true), None);
    let slash = FolderConnector::new("proj/".to_string(), true, false).unwrap();
    assert_eq!(slash.relative_path("proj/a.js", true), Some("a.js".to_string()));
}

#[test]
fn file_paths_join_root_and_relative_path() {
    let c = FolderConnector::new("proj".to_string(), true, false).unwrap();
    assert_eq!(c.file_path("src/a.js"), "proj/src/a.js");
    assert_eq!(join_path("proj/", "a.js"), "proj/a.js");
    assert_eq!(join_path("", "a.js"), "a.js");
    assert_eq!(join_path("proj", "/abs/a.js"), "/abs/a.js");
}
