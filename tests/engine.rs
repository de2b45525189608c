use symlinker::config::{ApiConfig, FolderConfig};
use symlinker::dedup::DedupSet;
use symlinker::engine::{Decision, Mirror, MirrorError};

fn folder(path: &str, exclude: &[&str]) -> FolderConfig {
    FolderConfig { path: path.to_string(), exclude: exclude.iter().map(|s| s.to_string()).collect() }
}

fn dest_of(d: Decision) -> (bool, String) {
    match d {
        Decision::Mirror { dest } => (true, dest),
        Decision::Duplicate { dest } => (false, dest),
        Decision::Excluded => panic!("unexpected exclusion"),
    }
}

#[test]
fn docs_scenario() {
    let config = ApiConfig { folders: vec![folder("/src/docs", &["\\.md$"])], symlink_root: "/out".to_string() };
    let mut m = Mirror::new(&config).ok().unwrap();
    let a = m.decide(0, &"/src/docs/a.txt".to_string()).ok().unwrap();
    assert_eq!(dest_of(a), (true, "/out/a.txt".to_string()));
    let b = m.decide(0, &"/src/docs/b.md".to_string()).ok().unwrap();
    assert!(matches!(b, Decision::Excluded));
}

#[test]
fn first_writer_wins_across_folders() {
    let config = ApiConfig {
        folders: vec![folder("/a", &[]), folder("/b/", &[])],
        symlink_root: "/out".to_string(),
    };
    let mut m = Mirror::new(&config).ok().unwrap();
    assert_eq!(m.num_folders(), 2);
    let first = m.decide(0, &"/a/x/f.txt".to_string()).ok().unwrap();
    assert_eq!(dest_of(first), (true, "/out/x/f.txt".to_string()));
    let second = m.decide(1, &"/b/x/f.txt".to_string()).ok().unwrap();
    assert_eq!(dest_of(second), (false, "/out/x/f.txt".to_string()));
    let other = m.decide(1, &"/b/x/g.txt".to_string()).ok().unwrap();
    assert_eq!(dest_of(other), (true, "/out/x/g.txt".to_string()));
}

#[test]
fn excluded_file_claims_nothing() {
    let config = ApiConfig {
        folders: vec![folder("/a", &["skip"]), folder("/b", &[])],
        symlink_root: "/out".to_string(),
    };
    let mut m = Mirror::new(&config).ok().unwrap();
    let first = m.decide(0, &"/a/skip.txt".to_string()).ok().unwrap();
    assert!(matches!(first, Decision::Excluded));
    let second = m.decide(1, &"/b/skip.txt".to_string()).ok().unwrap();
    assert_eq!(dest_of(second), (true, "/out/skip.txt".to_string()));
}

#[test]
fn file_outside_root_is_an_error() {
    let config = ApiConfig { folders: vec![folder("/a", &[])], symlink_root: "/out".to_string() };
    let mut m = Mirror::new(&config).ok().unwrap();
    match m.decide(0, &"/elsewhere/f.txt".to_string()) {
        Err(MirrorError::NotUnderRoot { root, file }) => {
            assert_eq!(root, "/a");
            assert_eq!(file, "/elsewhere/f.txt");
        }
        _ => panic!("expected a path error"),
    }
}

#[test]
fn invalid_pattern_fails_setup() {
    let config = ApiConfig {
        folders: vec![folder("/a", &["ok"]), folder("/b", &["ok", "[z"])],
        symlink_root: "/out".to_string(),
    };
    match Mirror::new(&config) {
        Err(MirrorError::InvalidPattern { pattern }) => assert_eq!(pattern, "[z"),
        _ => panic!("expected an invalid pattern"),
    }
}

#[test]
fn dedup_claims_once() {
    let mut s = DedupSet::new();
    let p = "/out/a".to_string();
    assert!(!s.contains(&p));
    assert!(s.claim(&p));
    assert!(s.contains(&p));
    assert!(!s.claim(&p));
    assert!(s.claim(&"/out/b".to_string()));
}
