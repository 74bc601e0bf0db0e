use cargo_gc::error::GcError;
use cargo_gc::outputs::{get_fingerprints, Fingerprints, OutputCollection, OutputItem};

fn item(paths: &[&str]) -> OutputItem {
    OutputItem { filenames: Some(paths.iter().map(|p| p.to_string()).collect()) }
}

#[test]
fn from_records_takes_identifiers_from_file_stems() {
    let items = vec![
        item(&["/t/debug/deps/libgit2_curl-abc123.rlib", "/t/debug/deps/libgit2_curl-abc123.rmeta"]),
        OutputItem { filenames: None },
        item(&["/t/debug/deps/git2-curl-0f0f.d"]),
        item(&[]),
    ];
    let collection = OutputCollection::from_records(&items).unwrap();
    let live = collection.deps_fingerprints;
    assert_eq!(live.len(), 2);
    assert!(live.contains("libgit2_curl", "abc123"));
    assert!(live.contains("git2-curl", "0f0f"));
    assert!(!live.contains("git2_curl", "0f0f"));
    assert!(!live.contains("libgit2_curl", "abc123.rlib"));
}

#[test]
fn from_records_uses_the_stem_not_the_path() {
    let items = vec![item(&["/weird-dir/plain.rlib", "/a-b/c-d.e.f"])];
    let live = OutputCollection::from_records(&items).unwrap().deps_fingerprints;
    assert_eq!(live.len(), 1);
    assert!(live.contains("c", "d.e"));
}

#[test]
fn empty_live_set_is_an_error() {
    let result = OutputCollection::from_records(&vec![]);
    assert!(matches!(result, Err(GcError::EmptyLiveSet)));

    let items = vec![
        OutputItem { filenames: None },
        item(&[]),
        item(&["/t/debug/build.rs", "/t/debug/deps/nodash.rlib", "", "/"]),
    ];
    let result = OutputCollection::from_records(&items);
    assert!(matches!(result, Err(GcError::EmptyLiveSet)));
}

#[test]
fn empty_live_set_message() {
    assert_eq!(
        GcError::EmptyLiveSet.message(),
        "no valid file is found, you can just run `cargo clean`"
    );
    assert_eq!(
        GcError::MissingFileStem("/x/..".to_string()).message(),
        "cannot get file stem of /x/.."
    );
}

#[test]
fn fingerprints_hold_each_identifier_once() {
    let mut set = Fingerprints::new();
    assert!(set.is_empty());
    set.insert("a".to_string(), "1".to_string());
    set.insert("a".to_string(), "2".to_string());
    set.insert("a".to_string(), "1".to_string());
    assert_eq!(set.len(), 2);
    assert!(!set.is_empty());
    assert!(set.contains("a", "1"));
    assert!(set.contains("a", "2"));
    assert!(!set.contains("a", "3"));
    assert!(!set.contains("1", "a"));
}

#[test]
fn insert_stem_passes_over_stems_without_identifier() {
    let mut set = Fingerprints::new();
    set.insert_stem("nodash");
    set.insert_stem("");
    assert!(set.is_empty());
    set.insert_stem("git2-curl-abc");
    assert_eq!(set.len(), 1);
    assert!(set.contains("git2-curl", "abc"));
}

#[test]
fn a_failed_build_gives_no_live_set() {
    let items = vec![item(&["/t/debug/deps/liba-1.rlib"])];
    match get_fingerprints(false, "error: could not compile".to_string(), &items) {
        Err(GcError::BuildFailed(diagnostics)) => {
            assert_eq!(diagnostics, "error: could not compile")
        }
        _ => panic!("expected a failed build"),
    }
    assert_eq!(
        GcError::BuildFailed("boom".to_string()).message(),
        "cargo build failed: boom"
    );
}

#[test]
fn a_build_gives_its_live_set() {
    let items = vec![item(&["/t/debug/deps/liba-1.rlib"]), item(&["/t/debug/deps/b-2"])];
    let live = get_fingerprints(true, String::new(), &items).unwrap();
    assert_eq!(live.len(), 2);
    assert!(live.contains("liba", "1"));
    assert!(live.contains("b", "2"));

    assert!(matches!(
        get_fingerprints(true, String::new(), &vec![]),
        Err(GcError::EmptyLiveSet)
    ));
}
