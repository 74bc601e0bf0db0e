use cargo_gc::paths::profile_path;
use cargo_gc::utils::{extract_fingerprint, normalize_package_name, profile_to_dir};

#[test]
fn test_normalize_package_name() {
    assert_eq!(normalize_package_name("git2-curl"), "git2_curl");
    assert_eq!(normalize_package_name("git2_curl"), "git2_curl");
    assert_eq!(normalize_package_name("simple"), "simple");
}

#[test]
fn test_profile_to_dir() {
    assert_eq!(profile_to_dir("dev"), "debug");
    assert_eq!(profile_to_dir("release"), "release");
    assert_eq!(profile_to_dir("custom"), "custom");
    assert_eq!(profile_to_dir("test"), "test");
}

#[test]
fn normalize_is_idempotent() {
    for name in ["git2-curl", "a-b-c", "", "-", "--x--", "plain", "snake_case", "é-ü"] {
        let once = normalize_package_name(name);
        assert_eq!(normalize_package_name(&once), once);
        assert!(!once.contains('-'));
        assert_eq!(once.chars().count(), name.chars().count());
    }
}

#[test]
fn normalize_keeps_other_characters() {
    assert_eq!(normalize_package_name(""), "");
    assert_eq!(normalize_package_name("-"), "_");
    assert_eq!(normalize_package_name("a--b"), "a__b");
    assert_eq!(normalize_package_name("é-ü"), "é_ü");
}

#[test]
fn profile_to_dir_only_maps_dev() {
    assert_eq!(profile_to_dir(""), "");
    assert_eq!(profile_to_dir("debug"), "debug");
    assert_eq!(profile_to_dir("development"), "development");
    assert_eq!(profile_to_dir("de"), "de");
    assert_eq!(profile_to_dir("Dev"), "Dev");
}

#[test]
fn extract_fingerprint_splits_at_the_last_dash() {
    assert_eq!(
        extract_fingerprint("git2-curl-abc123"),
        Some(("git2-curl".to_string(), "abc123".to_string()))
    );
    assert_eq!(
        extract_fingerprint("serde-0123456789abcdef"),
        Some(("serde".to_string(), "0123456789abcdef".to_string()))
    );
    assert_eq!(
        extract_fingerprint("libfoo-abc.rlib"),
        Some(("libfoo".to_string(), "abc.rlib".to_string()))
    );
}

#[test]
fn extract_fingerprint_without_dash_is_none() {
    assert_eq!(extract_fingerprint("serde"), None);
    assert_eq!(extract_fingerprint(""), None);
    assert_eq!(extract_fingerprint("lib_foo.d"), None);
}

#[test]
fn extract_fingerprint_edge_cases() {
    assert_eq!(extract_fingerprint("-"), Some((String::new(), String::new())));
    assert_eq!(extract_fingerprint("a-"), Some(("a".to_string(), String::new())));
    assert_eq!(extract_fingerprint("-b"), Some((String::new(), "b".to_string())));
    assert_eq!(extract_fingerprint("a--b"), Some(("a-".to_string(), "b".to_string())));
    assert_eq!(extract_fingerprint("é-ü"), Some(("é".to_string(), "ü".to_string())));
}

#[test]
fn extract_fingerprint_rejoins_to_the_input() {
    for stem in ["git2-curl-abc123", "a-b", "-", "x-y-z-", "-lead", "é-ü-ß"] {
        let (name, hash) = extract_fingerprint(stem).unwrap();
        assert_eq!(format!("{}-{}", name, hash), stem);
        assert!(!hash.contains('-'));
    }
}

#[test]
fn profile_path_lies_below_the_target_directory() {
    assert_eq!(profile_path("/w/target", "dev"), "/w/target/debug");
    assert_eq!(profile_path("/w/target", "release"), "/w/target/release");
    assert_eq!(profile_path("/w/target/", "bench"), "/w/target/bench");
    assert_eq!(profile_path("target", "custom"), "target/custom");
}
