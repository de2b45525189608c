use symlinker::paths::{conflict_path, join_path, relative_path};

#[test]
fn join_adds_one_separator() {
    assert_eq!(join_path("/out", "a.txt"), "/out/a.txt");
    assert_eq!(join_path("/out/", "a.txt"), "/out/a.txt");
    assert_eq!(join_path("/out", "sub/a.txt"), "/out/sub/a.txt");
    assert_eq!(join_path("", "a.txt"), "a.txt");
}

#[test]
fn relative_strips_the_root() {
    assert_eq!(relative_path("/src/docs", "/src/docs/a.txt"), Some("a.txt".to_string()));
    assert_eq!(relative_path("/src/docs/", "/src/docs/sub/a.txt"), Some("sub/a.txt".to_string()));
}

#[test]
fn relative_refuses_non_descendants() {
    assert_eq!(relative_path("/src/docs", "/src/docsx/a.txt"), None);
    assert_eq!(relative_path("/src/docs", "/src/docs"), None);
    assert_eq!(relative_path("/src/docs", "/src/docs/"), None);
    assert_eq!(relative_path("/src/docs", "/other/a.txt"), None);
}

#[test]
fn conflict_path_appends_suffix() {
    assert_eq!(conflict_path("/out/a.txt"), "/out/a.txt.conflict");
    assert_eq!(conflict_path("/out/readme"), "/out/readme.conflict");
}
