use mac_cleaner::config::{existing_in, keep_present, Config, DeleteMode, MatcherError};

#[test]
fn cache_signatures_match_expected() {
    let m = Config::default().matchers().unwrap();
    assert!(m.is_cache_signature("Cache"));
    assert!(m.is_cache_signature("Code Cache"));
    assert!(m.is_cache_signature("GPUCache"));
    assert!(m.is_cache_signature("com.microsoft.VSCode.ShipIt"));
    assert!(m.is_cache_signature("component_crx_cache"));
    assert!(!m.is_cache_signature("Documents"));
    assert!(!m.is_cache_signature("User"));
}

#[test]
fn protected_paths_are_flagged() {
    let m = Config::default().matchers().unwrap();
    assert!(m.is_protected("/x/Application Support/Google/Chrome/Default/Cache"));
    assert!(m.is_protected("/x/Chrome/Profile 2/Cache"));
    assert!(m.is_protected("/Users/me/.ssh/id_rsa"));
    assert!(!m.is_protected("/Users/me/Library/Caches/com.spotify.client"));
}

#[test]
fn log_signatures_match() {
    let m = Config::default().matchers().unwrap();
    assert!(m.is_log_dir("logs"));
    assert!(m.is_log_dir("log"));
    assert!(m.is_log_file("app.log"));
    assert!(m.is_log_file("npm-debug.log.1"));
    assert!(!m.is_log_file("app.txt"));
}

#[test]
fn config_signatures() {
    let m = Config::default().matchers().unwrap();
    assert!(m.is_cache_signature("GPUCache"));
    assert!(m.is_log_dir("logs"));
    assert!(!m.is_protected("/Users/x/Library/Caches/foo"));
    assert!(m.is_protected("/Users/x/Chrome/Default"));
    assert!(m.is_excluded_dir("node_modules"));
}

#[test]
fn given_config_when_matchers_then_signatures_and_guards_load() {
    let m = Config::default().matchers().expect("matchers");
    assert!(m.is_cache_signature("GPUCache"));
    assert!(m.is_log_dir("logs"));
    assert!(!m.is_protected("/Users/x/Library/Caches/foo"));
    assert!(m.is_protected("/Users/x/Chrome/Default"));
    assert!(m.is_excluded_dir("node_modules"));
}

#[test]
fn defaults_match_documented_values() {
    let cfg = Config::default();
    assert_eq!(cfg.delete_mode, DeleteMode::Trash);
    assert_eq!(cfg.large.min_bytes, 100 * 1024 * 1024);
    assert_eq!(cfg.large.stale_archive_days, 30);
    assert_eq!(cfg.logs.age_days, 7);
    assert_eq!(cfg.duplicates.min_bytes, 1024 * 1024);
    assert!(cfg.dev_artifacts.roots.iter().any(|r| r == "~/Documents"));
    assert!(cfg.dev_artifacts.artifact_dir_names.iter().any(|x| x == "target"));
    assert!(cfg.privilege.auto_elevate);
}

#[test]
fn bad_glob_is_reported_with_its_pattern() {
    let mut cfg = Config::default();
    cfg.cache.signatures.push("[unclosed".to_string());
    match cfg.matchers() {
        Err(MatcherError::BadGlob(p)) => assert_eq!(p, "[unclosed"),
        other => panic!("expected a bad glob, got {:?}", other.is_ok()),
    }
}

#[test]
fn roots_are_kept_exactly_when_present_in_order() {
    let list = vec!["~/a".to_string(), "/b".to_string(), "~/c".to_string(), "~".to_string()];
    let kept = keep_present(&list, "/h", &vec![true, false, true, true]);
    assert_eq!(kept, vec!["/h/a".to_string(), "/h/c".to_string(), "/h".to_string()]);
    assert!(keep_present(&list, "/h", &vec![false; 4]).is_empty());
    let on_disk = existing_in(&vec!["/".to_string(), "/no/such/dir/anywhere".to_string(), "/".to_string()], "/h");
    assert_eq!(on_disk, vec!["/".to_string(), "/".to_string()]);
}

#[test]
fn default_roots_match_documented_values() {
    let c = Config::default();
    assert_eq!(c.large.roots, vec!["~/Downloads", "~/Documents", "~/Desktop", "~/Movies"]);
    assert_eq!(c.duplicates.roots, vec!["~/Downloads", "~/Documents", "~/Desktop"]);
    assert_eq!(c.logs.roots, vec!["~", "~/Library/Logs"]);
    assert_eq!(&c.cache.roots[0..2], &["~/Library/Caches".to_string(), "~/Library/Application Support".to_string()]);
    assert_eq!(c.large.stale_archive_min_bytes, 10 * 1024 * 1024);
    assert_eq!(c.dev_artifacts.dependency_dir_names, vec!["node_modules", ".venv", "Pods"]);
}
