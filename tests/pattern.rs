use symlinker::engine::MirrorError;
use symlinker::pattern::{any_match, compile_all, ExcludePattern};

#[test]
fn pattern_matches_full_path() {
    let p = ExcludePattern::new(&"\\.md$".to_string()).ok().unwrap();
    assert_eq!(p.as_str(), "\\.md$");
    assert!(p.is_match("/src/docs/b.md"));
    assert!(!p.is_match("/src/docs/a.txt"));
    assert!(!p.is_match("/src/docs/b.md.txt"));
}

#[test]
fn invalid_pattern_is_named() {
    match ExcludePattern::new(&"foo(bar".to_string()) {
        Err(MirrorError::InvalidPattern { pattern }) => assert_eq!(pattern, "foo(bar"),
        _ => panic!("expected an invalid pattern"),
    }
}

#[test]
fn compile_all_stops_at_first_invalid() {
    let texts = vec!["a".to_string(), "(".to_string(), "[".to_string()];
    match compile_all(&texts) {
        Err(MirrorError::InvalidPattern { pattern }) => assert_eq!(pattern, "("),
        _ => panic!("expected an invalid pattern"),
    }
}

#[test]
fn any_match_over_several_patterns() {
    let texts = vec!["\\.md$".to_string(), "/tmp/".to_string()];
    let ps = compile_all(&texts).ok().unwrap();
    assert_eq!(ps.len(), 2);
    assert!(any_match(&ps, "/a/b.md"));
    assert!(any_match(&ps, "/x/tmp/y.txt"));
    assert!(!any_match(&ps, "/x/y.txt"));
    assert!(!any_match(&Vec::new(), "/x/y.md"));
}
