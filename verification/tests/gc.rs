use cargo_gc::beatrice::Timestamp;
use cargo_gc::error::GcError;
use cargo_gc::gc::{select_outdated, ArtifactRecord, Outcome, RemovalPlan, RemovalRun};
use cargo_gc::incremental::SessionEntry;
use cargo_gc::outputs::Fingerprints;
use cargo_gc::string_set::StringSet;

fn record(name: &str, hash: &str, ext: Option<&str>) -> ArtifactRecord {
    let file = match ext {
        Some(ext) => format!("/t/deps/{}-{}.{}", name, hash, ext),
        None => format!("/t/deps/{}-{}", name, hash),
    };
    ArtifactRecord {
        name: name.to_string(),
        hash: hash.to_string(),
        extension: ext.map(|e| e.to_string()),
        path: file,
    }
}

fn live(ids: &[(&str, &str)]) -> Fingerprints {
    let mut set = Fingerprints::new();
    for (name, hash) in ids {
        set.insert(name.to_string(), hash.to_string());
    }
    set
}

fn sorted(set: StringSet) -> Vec<String> {
    let mut v = set.into_vec();
    v.sort();
    v
}

fn session(name: &str, nanos: i128) -> SessionEntry {
    SessionEntry {
        file_name: name.to_string(),
        is_dir: true,
        last_modified: Timestamp { nanos },
    }
}

#[test]
fn selection_keeps_what_is_live() {
    let records = vec![record("a", "1", Some("rlib")), record("a", "2", Some("rlib"))];
    let selected = select_outdated(&records, &live(&[("a", "2")]));
    assert_eq!(sorted(selected), vec!["/t/deps/a-1.rlib".to_string()]);
}

#[test]
fn selection_never_takes_dep_info_files() {
    let records = vec![
        record("a", "1", Some("d")),
        record("b", "2", Some("d")),
        record("b", "2", Some("rlib")),
        record("c", "3", None),
        record("c", "3", Some("dd")),
        record("c", "3", Some("D")),
    ];
    for set in [live(&[]), live(&[("a", "1")]), live(&[("zzz", "0")])] {
        let selected = sorted(select_outdated(&records, &set));
        assert!(!selected.contains(&"/t/deps/a-1.d".to_string()));
        assert!(!selected.contains(&"/t/deps/b-2.d".to_string()));
        assert!(selected.contains(&"/t/deps/b-2.rlib".to_string()));
        assert!(selected.contains(&"/t/deps/c-3".to_string()));
        assert!(selected.contains(&"/t/deps/c-3.dd".to_string()));
        assert!(selected.contains(&"/t/deps/c-3.D".to_string()));
    }
}

#[test]
fn selection_matches_names_as_they_are_spelled() {
    let records = vec![record("git2-curl", "1", Some("rlib")), record("git2_curl", "1", Some("rlib"))];
    let selected = select_outdated(&records, &live(&[("git2_curl", "1")]));
    assert_eq!(sorted(selected), vec!["/t/deps/git2-curl-1.rlib".to_string()]);
}

#[test]
fn selection_of_nothing() {
    assert!(select_outdated(&vec![], &live(&[("a", "1")])).into_vec().is_empty());
    let records = vec![record("a", "1", Some("rlib"))];
    assert!(select_outdated(&records, &live(&[("a", "1")])).into_vec().is_empty());
}

#[test]
fn is_outdated_agrees_with_selection() {
    let set = live(&[("a", "2")]);
    assert!(record("a", "1", Some("rlib")).is_outdated(&set));
    assert!(!record("a", "2", Some("rlib")).is_outdated(&set));
    assert!(!record("a", "1", Some("d")).is_outdated(&set));
    assert!(record("a", "1", None).is_outdated(&set));
}

#[test]
fn artifact_from_parts() {
    let r = ArtifactRecord::from_parts("git2-curl-ab", Some("rlib".to_string()), "/p".to_string())
        .unwrap();
    assert_eq!(r.name, "git2-curl");
    assert_eq!(r.hash, "ab");
    assert_eq!(r.extension, Some("rlib".to_string()));
    assert_eq!(r.path, "/p");
    assert!(ArtifactRecord::from_parts("nodash", None, "/p".to_string()).is_none());
}

#[test]
fn artifact_from_path_reads_stem_and_extension() {
    let r = ArtifactRecord::from_path("target/debug/deps/libfoo-0a1b.rlib", "/abs/libfoo-0a1b.rlib".to_string())
        .unwrap()
        .unwrap();
    assert_eq!(r.name, "libfoo");
    assert_eq!(r.hash, "0a1b");
    assert_eq!(r.extension, Some("rlib".to_string()));
    assert_eq!(r.path, "/abs/libfoo-0a1b.rlib");

    let r = ArtifactRecord::from_path("deps/foo-0a1b", "/abs/foo-0a1b".to_string())
        .unwrap()
        .unwrap();
    assert_eq!(r.hash, "0a1b");
    assert_eq!(r.extension, None);

    let r = ArtifactRecord::from_path("deps/foo-0a1b.d", "/abs/foo-0a1b.d".to_string())
        .unwrap()
        .unwrap();
    assert_eq!(r.extension, Some("d".to_string()));

    assert!(ArtifactRecord::from_path("deps/foo.d", "/abs/foo.d".to_string()).unwrap().is_none());
}

#[test]
fn artifact_from_path_without_stem_is_an_error() {
    match ArtifactRecord::from_path("deps/..", "/abs".to_string()) {
        Err(GcError::MissingFileStem(path)) => assert_eq!(path, "deps/.."),
        _ => panic!("expected an error"),
    }
}

#[test]
fn dry_run_selects_what_a_real_run_selects() {
    let records = vec![
        record("a", "1", Some("rlib")),
        record("a", "2", Some("rlib")),
        record("b", "1", Some("d")),
    ];
    let sessions = vec![session("x-1", 1), session("x-2", 2), session("y-1", 1)];
    let set = live(&[("a", "2")]);
    let dry = RemovalPlan::select(true, &records, &set, &sessions);
    let wet = RemovalPlan::select(false, &records, &set, &sessions);
    assert!(!dry.execute);
    assert!(wet.execute);
    assert_eq!(dry.files.into_vec(), wet.files.into_vec());
    assert_eq!(dry.incremental.into_vec(), wet.incremental.into_vec());
}

#[test]
fn a_dry_run_is_not_carried_out() {
    let records = vec![record("a", "1", Some("rlib"))];
    let plan = RemovalPlan::select(true, &records, &live(&[("a", "2")]), &vec![]);
    assert_eq!(plan.files.len(), 1);
    assert!(RemovalRun::start(plan).is_none());
}

fn run_of(files: usize, dirs: usize) -> RemovalRun {
    let records: Vec<ArtifactRecord> =
        (0..files).map(|i| record("a", &format!("{}", i), Some("rlib"))).collect();
    let sessions: Vec<SessionEntry> =
        (0..dirs + 1).map(|i| session(&format!("x-{}", i), i as i128)).collect();
    let sessions = if dirs == 0 { vec![] } else { sessions };
    let plan = RemovalPlan::select(false, &records, &live(&[("zzz", "0")]), &sessions);
    RemovalRun::start(plan).unwrap()
}

#[test]
fn a_run_goes_through_files_then_directories() {
    let mut run = run_of(2, 2);
    assert_eq!(run.files_selected, 2);
    assert_eq!(run.directories_selected, 2);
    let mut seen = vec![];
    loop {
        let target = match run.next() {
            Some(t) => (t.path.clone(), t.is_directory),
            None => break,
        };
        seen.push(target);
        run.record(Outcome { size: 1, removed: true });
    }
    assert_eq!(
        seen,
        vec![
            ("/t/deps/a-0.rlib".to_string(), false),
            ("/t/deps/a-1.rlib".to_string(), false),
            ("x-0".to_string(), true),
            ("x-1".to_string(), true),
        ]
    );
    let report = run.report();
    assert_eq!(report.files_removed, 2);
    assert_eq!(report.directories_removed, 2);
    assert_eq!(report.bytes_freed, 4);
    assert_eq!(report.failures, 0);
}

#[test]
fn a_single_failure_is_counted_and_frees_nothing() {
    let n = 5;
    for failing in 0..n {
        let mut run = run_of(n, 0);
        let sizes = [10u64, 200, 3000, 40000, 500000];
        for i in 0..n {
            assert!(run.next().is_some());
            assert!(run.fits(sizes[i]));
            run.record(Outcome { size: sizes[i], removed: i != failing });
        }
        assert!(run.next().is_none());
        let report = run.report();
        assert_eq!(report.files_selected, n);
        assert_eq!(report.files_removed, n - 1);
        assert_eq!(report.failures, 1);
        assert_eq!(report.bytes_freed, 543210 - sizes[failing]);
    }
}

#[test]
fn failures_do_not_stop_a_run() {
    let mut run = run_of(2, 1);
    run.record(Outcome { size: 7, removed: false });
    run.record(Outcome { size: 5, removed: true });
    run.record(Outcome { size: 3, removed: false });
    let report = run.report();
    assert_eq!(report.files_removed, 1);
    assert_eq!(report.files_selected, 2);
    assert_eq!(report.directories_removed, 0);
    assert_eq!(report.directories_selected, 1);
    assert_eq!(report.failures, 2);
    assert_eq!(report.bytes_freed, 5);
}

#[test]
fn a_finished_run_takes_no_more_outcomes() {
    let mut run = run_of(1, 0);
    run.record(Outcome { size: 5, removed: true });
    run.record(Outcome { size: 9, removed: true });
    run.record(Outcome { size: 9, removed: false });
    let report = run.report();
    assert_eq!(report.files_removed, 1);
    assert_eq!(report.failures, 0);
    assert_eq!(report.bytes_freed, 5);
}

#[test]
fn fits_tells_when_the_account_is_full() {
    let mut run = run_of(2, 0);
    run.record(Outcome { size: u64::MAX - 1, removed: true });
    assert!(run.fits(1));
    assert!(run.fits(0));
    assert!(!run.fits(2));
}

#[test]
fn summary_of_a_clean_run() {
    let mut run = run_of(2, 0);
    run.record(Outcome { size: 600_000, removed: true });
    run.record(Outcome { size: 400_000, removed: true });
    assert_eq!(
        run.summary("target/debug"),
        "Removed 2 of 2 files and 0 of 0 incremental directories from \"target/debug\", 1 MB total"
    );
}

#[test]
fn summary_names_failures() {
    let mut run = run_of(3, 0);
    run.record(Outcome { size: 1500, removed: true });
    run.record(Outcome { size: 99, removed: false });
    run.record(Outcome { size: 1, removed: false });
    assert_eq!(
        run.summary("a \"b\"\\c"),
        "Removed 1 of 3 files and 0 of 0 incremental directories from \"a \\\"b\\\"\\\\c\", 1.50 kB total, 2 files failed to remove"
    );
}

#[test]
fn summary_counts_directories() {
    let mut run = run_of(1, 2);
    run.record(Outcome { size: 1_000, removed: true });
    run.record(Outcome { size: 2_000_000_000, removed: true });
    run.record(Outcome { size: 5, removed: false });
    assert_eq!(
        run.summary("/t/release"),
        "Removed 1 of 1 files and 1 of 2 incremental directories from \"/t/release\", 2.00 GB total, 1 files failed to remove"
    );
}

#[test]
fn summary_of_an_empty_run() {
    let run = run_of(0, 0);
    assert_eq!(
        run.summary(""),
        "Removed 0 of 0 files and 0 of 0 incremental directories from \"\", 0 B total"
    );
}
