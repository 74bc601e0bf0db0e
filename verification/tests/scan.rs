use cargo_gc::args::Args;
use cargo_gc::beatrice::{Beatrice, UnitFreshness};
use cargo_gc::config::StaticScanConfig;
use cargo_gc::scan::{DependencyFreshness, Scanner};

fn scanner() -> Scanner {
    let args = Args {
        profile: "dev".to_string(),
        verbose: false,
        dry_run: false,
        cargo_args: vec![],
    };
    Scanner::try_new(StaticScanConfig::from_args(&args, ".".to_string()))
}

fn unit(package: &str, hash: &str, reason: Option<&str>) -> DependencyFreshness {
    DependencyFreshness::new(
        package.to_string(),
        reason.map(|r| r.to_string()),
        hash.to_string(),
        format!("/t/.fingerprint/{}-{}", package, hash),
    )
}

#[test]
fn a_unit_is_fresh_without_a_reason() {
    let fresh = unit("a", "1", None);
    assert!(fresh.is_fresh);
    assert!(matches!(fresh.unit_freshness(), UnitFreshness::Fresh));

    let dirty = unit("a", "1", Some("changed"));
    assert!(!dirty.is_fresh);
    match dirty.unit_freshness() {
        UnitFreshness::Dirty(reason) => assert_eq!(reason, "changed"),
        _ => panic!("expected a dirty unit"),
    }
}

#[test]
fn a_dirty_unit_without_reason_has_an_unknown_one() {
    let unit = DependencyFreshness {
        package_name: "a".to_string(),
        is_fresh: false,
        dirty_reason: None,
        current_fingerprint_hash: "1".to_string(),
        fingerprint_path: String::new(),
    };
    match unit.unit_freshness() {
        UnitFreshness::Dirty(reason) => assert_eq!(reason, "Unknown reason"),
        _ => panic!("expected a dirty unit"),
    }
}

#[test]
fn scan_records_findings_on_known_fingerprints() {
    let mut betty = Beatrice::open("target/debug".to_string());
    betty.load_library(
        &vec!["git2-curl-aa".to_string(), "serde-bb".to_string(), "serde-cc".to_string()],
        &vec![],
    );
    let units = vec![
        unit("git2-curl", "aa", None),
        unit("serde", "bb", Some("stale")),
        unit("missing", "dd", None),
        unit("serde", "zz", Some("no such hash")),
    ];
    let counts = scanner().scan(&mut betty, &units);
    assert_eq!(counts.fresh_count, 2);
    assert_eq!(counts.dirty_count, 2);

    assert!(matches!(
        betty.get_fingerprint_freshness("git2_curl", "aa"),
        Some(UnitFreshness::Fresh)
    ));
    match betty.get_fingerprint_freshness("serde", "bb") {
        Some(UnitFreshness::Dirty(reason)) => assert_eq!(reason, "stale"),
        _ => panic!("expected a dirty fingerprint"),
    }
    assert!(matches!(
        betty.get_fingerprint_freshness("serde", "cc"),
        Some(UnitFreshness::Unknown)
    ));
    assert!(!betty.has_package("missing"));
    assert_eq!(betty.fingerprint_library.len(), 3);

    let c = betty.report_counts();
    assert_eq!((c.fresh_count, c.dirty_count, c.unknown_count), (1, 1, 1));
}

#[test]
fn the_last_finding_on_a_unit_counts() {
    let mut betty = Beatrice::open("p".to_string());
    betty.load_library(&vec!["a-1".to_string()], &vec![]);
    let units = vec![unit("a", "1", Some("first")), unit("a", "1", None)];
    let counts = scanner().scan(&mut betty, &units);
    assert_eq!((counts.fresh_count, counts.dirty_count), (1, 1));
    assert!(matches!(betty.get_fingerprint_freshness("a", "1"), Some(UnitFreshness::Fresh)));
}

#[test]
fn without_findings_everything_stays_unknown() {
    let mut betty = Beatrice::open("p".to_string());
    betty.load_library(&vec!["a-1".to_string(), "b-2".to_string()], &vec![]);
    let counts = scanner().scan(&mut betty, &vec![]);
    assert_eq!((counts.fresh_count, counts.dirty_count), (0, 0));
    let c = betty.report_counts();
    assert_eq!((c.fresh_count, c.dirty_count, c.unknown_count), (0, 0, 2));
}
