//! The in-memory index of a profile directory: fingerprint records and
//! compiled-dependency artifacts, each keyed by package name and hash.
//!
//! The two tables are filled independently of each other and are joined only
//! by key, when the index is read.

use vstd::prelude::*;
use vstd::string::StringExecFns;
use crate::incremental::{stale_incremental_sessions, stale_sessions, SessionEntry};
use crate::library::{Key, Library};
use crate::paths::{join_path, joined_path};
use crate::string_set::StringSet;
use crate::text::{decimal, push_decimal};
use crate::utils::{extract_fingerprint, normalize_package_name, normalized, parse_identifier};

verus! {

/// A point in time, in nanoseconds since the Unix epoch (negative before it).
#[derive(Clone, Copy, Debug, PartialEq, Eq, Structural)]
pub struct Timestamp {
    pub nanos: i128,
}

impl Timestamp {
    /// Whether this point in time lies strictly after `other`.
    pub fn is_after(self, other: Timestamp) -> (r: bool)
        ensures
            r == (self.nanos > other.nanos),
    {
        self.nanos > other.nanos
    }
}

/// What the index keeps of one artifact in the deps tree.
#[derive(Debug, Clone)]
pub struct ItemInfo {
    pub last_modified: Timestamp,
    pub size: u64,
}

/// What the index keeps of one fingerprint record.
#[derive(Debug, Clone)]
pub struct FingerprintInfo {
    pub freshness: UnitFreshness,
}

/// Whether the cached build state of a unit is still valid.
#[derive(Debug, Clone)]
pub enum UnitFreshness {
    Fresh,
    /// Known to be invalid, with the reason.
    Dirty(String),
    Unknown,
}

/// A freshness as plain text.
pub enum FreshnessModel {
    Fresh,
    Dirty(Seq<char>),
    Unknown,
}

impl View for UnitFreshness {
    type V = FreshnessModel;

    open spec fn view(&self) -> FreshnessModel {
        match self {
            UnitFreshness::Fresh => FreshnessModel::Fresh,
            UnitFreshness::Dirty(reason) => FreshnessModel::Dirty(reason@),
            UnitFreshness::Unknown => FreshnessModel::Unknown,
        }
    }
}

/// One entry of the deps directory, as a listing of the directory gives it.
pub struct DepsEntry {
    /// The entry's name within the directory, extension included.
    pub file_name: String,
    /// The entry's size in bytes; for a directory, that of all files below it.
    pub size: u64,
    pub last_modified: Timestamp,
}

/// The counts that a report of the index shows.
#[derive(Debug, Clone, Copy, PartialEq, Eq, Structural)]
pub struct ReportCounts {
    pub fresh_count: usize,
    pub fresh_with_deps: usize,
    pub fresh_without_deps: usize,
    pub dirty_count: usize,
    pub dirty_with_deps: usize,
    pub dirty_without_deps: usize,
    pub unknown_count: usize,
    pub unknown_with_deps: usize,
    pub unknown_without_deps: usize,
    pub total_fingerprints: usize,
    pub deps_without_fingerprints: usize,
    pub total_deps_items: usize,
}

/// The index of one profile directory.
pub struct Beatrice {
    /// The profile directory that the index is of.
    pub profile_dir: String,
    /// Fingerprint records, under normalized package name and hash.
    pub fingerprint_library: Library<FingerprintInfo>,
    /// Artifacts of the deps tree, under normalized package name and hash.
    pub deps_library: Library<ItemInfo>,
}

/// The key under which the index files an entry of either tree: the
/// identifier in the entry's name, with the package name normalized. An entry
/// whose name carries no identifier is not filed.
pub open spec fn index_key(entry_name: Seq<char>) -> Option<Key> {
    match parse_identifier(entry_name) {
        Some((name, hash)) => Some((normalized(name), hash)),
        None => None,
    }
}

/// The fingerprint table that a listing of the fingerprint directory gives:
/// one record of unknown freshness for each key found in it.
pub open spec fn scanned_fingerprints(names: Seq<Seq<char>>) -> Map<Key, FingerprintInfo>
    decreases names.len(),
{
    if names.len() == 0 {
        Map::empty()
    } else {
        let before = scanned_fingerprints(names.drop_last());
        match index_key(names.last()) {
            Some(key) => before.insert(key, FingerprintInfo { freshness: UnitFreshness::Unknown }),
            None => before,
        }
    }
}

/// The deps table that a listing of the deps directory gives: under each key
/// found in it, size and time of the last entry with that key.
pub open spec fn scanned_deps(entries: Seq<DepsEntry>) -> Map<Key, ItemInfo>
    decreases entries.len(),
{
    if entries.len() == 0 {
        Map::empty()
    } else {
        let before = scanned_deps(entries.drop_last());
        let entry = entries.last();
        match index_key(entry.file_name@) {
            Some(key) => before.insert(
                key,
                ItemInfo { last_modified: entry.last_modified, size: entry.size },
            ),
            None => before,
        }
    }
}

/// The fingerprint table of a listing holds exactly the keys found in the
/// listing, each with unknown freshness.
pub proof fn lemma_scanned_fingerprints(names: Seq<Seq<char>>, key: Key)
    ensures
        scanned_fingerprints(names).contains_key(key) <==> exists|i: int|
            0 <= i < names.len() && index_key(#[trigger] names[i]) == Some(key),
        scanned_fingerprints(names).contains_key(key) ==> scanned_fingerprints(
            names,
        )[key].freshness is Unknown,
    decreases names.len(),
{
    if names.len() > 0 {
        let front = names.drop_last();
        lemma_scanned_fingerprints(front, key);
        if exists|i: int| 0 <= i < names.len() && index_key(#[trigger] names[i]) == Some(key) {
            let i = choose|i: int|
                0 <= i < names.len() && index_key(#[trigger] names[i]) == Some(key);
            if i < front.len() {
                assert(front[i] == names[i]);
            }
        }
    }
}

/// The deps table of a listing holds exactly the keys found in the listing,
/// each with size and time of the last entry that carries it.
pub proof fn lemma_scanned_deps(entries: Seq<DepsEntry>, key: Key)
    ensures
        scanned_deps(entries).contains_key(key) <==> exists|i: int|
            0 <= i < entries.len() && index_key((#[trigger] entries[i]).file_name@) == Some(key),
        scanned_deps(entries).contains_key(key) ==> exists|i: int|
            {
                &&& 0 <= i < entries.len()
                &&& index_key((#[trigger] entries[i]).file_name@) == Some(key)
                &&& scanned_deps(entries)[key].size == entries[i].size
                &&& scanned_deps(entries)[key].last_modified == entries[i].last_modified
                &&& forall|j: int|
                    i < j < entries.len() ==> index_key((#[trigger] entries[j]).file_name@)
                        != Some(key)
            },
    decreases entries.len(),
{
    if entries.len() > 0 {
        let front = entries.drop_last();
        let n = entries.len() - 1;
        lemma_scanned_deps(front, key);
        if index_key(entries.last().file_name@) != Some(key) {
            if scanned_deps(entries).contains_key(key) {
                let i = choose|i: int|
                    {
                        &&& 0 <= i < front.len()
                        &&& index_key((#[trigger] front[i]).file_name@) == Some(key)
                        &&& scanned_deps(front)[key].size == front[i].size
                        &&& scanned_deps(front)[key].last_modified == front[i].last_modified
                        &&& forall|j: int|
                            i < j < front.len() ==> index_key((#[trigger] front[j]).file_name@)
                                != Some(key)
                    };
                assert forall|j: int| i < j < entries.len() implies index_key(
                    (#[trigger] entries[j]).file_name@,
                ) != Some(key) by {
                    if j < n {
                        assert(entries[j] == front[j]);
                    }
                }
            }
            if exists|i: int|
                0 <= i < entries.len() && index_key((#[trigger] entries[i]).file_name@) == Some(
                    key,
                ) {
                let i = choose|i: int|
                    0 <= i < entries.len() && index_key((#[trigger] entries[i]).file_name@)
                        == Some(key);
                assert(front[i] == entries[i]);
            }
        }
    }
}

/// The sizes summed up.
pub open spec fn sum_of(sizes: Seq<u64>) -> int
    decreases sizes.len(),
{
    if sizes.len() == 0 {
        0
    } else {
        sum_of(sizes.drop_last()) + sizes.last()
    }
}

/// A sum of sizes is no less than the sum of any of its beginnings.
pub proof fn lemma_sum_grows(sizes: Seq<u64>, n: int)
    requires
        0 <= n <= sizes.len(),
    ensures
        0 <= sum_of(sizes.take(n)) <= sum_of(sizes),
    decreases sizes.len(),
{
    if n == sizes.len() {
        assert(sizes.take(n) =~= sizes);
        if n > 0 {
            lemma_sum_grows(sizes.drop_last(), n - 1);
        }
    } else {
        assert(sizes.drop_last().take(n) =~= sizes.take(n));
        lemma_sum_grows(sizes.drop_last(), n);
    }
}

/// Fingerprint records found fresh.
pub open spec fn fresh() -> spec_fn(Key, FingerprintInfo) -> bool {
    |k: Key, v: FingerprintInfo| v.freshness is Fresh
}

/// Fingerprint records found dirty, whatever the reason.
pub open spec fn dirty() -> spec_fn(Key, FingerprintInfo) -> bool {
    |k: Key, v: FingerprintInfo| v.freshness is Dirty
}

/// Fingerprint records of unknown freshness.
pub open spec fn unknown() -> spec_fn(Key, FingerprintInfo) -> bool {
    |k: Key, v: FingerprintInfo| v.freshness is Unknown
}

/// Those fingerprint records among `p` whose key the deps table holds
/// (`with`), or does not hold (`!with`).
pub open spec fn paired(
    p: spec_fn(Key, FingerprintInfo) -> bool,
    deps: Map<Key, ItemInfo>,
    with: bool,
) -> spec_fn(Key, FingerprintInfo) -> bool {
    |k: Key, v: FingerprintInfo| p(k, v) && deps.contains_key(k) == with
}

/// Artifacts whose key the fingerprint table does not hold.
pub open spec fn orphaned(fingerprints: Map<Key, FingerprintInfo>) -> spec_fn(
    Key,
    ItemInfo,
) -> bool {
    |k: Key, v: ItemInfo| !fingerprints.contains_key(k)
}

/// The text of a report with the given counts.
pub open spec fn render_report(c: ReportCounts) -> Seq<char> {
    "Beatrice Report:\n\nFingerprint Analysis:\n- Fresh: "@ + decimal(c.fresh_count as nat)
        + " (with deps: "@ + decimal(c.fresh_with_deps as nat) + ", without deps: "@ + decimal(
        c.fresh_without_deps as nat,
    ) + ")\n- Dirty: "@ + decimal(c.dirty_count as nat) + " (with deps: "@ + decimal(
        c.dirty_with_deps as nat,
    ) + ", without deps: "@ + decimal(c.dirty_without_deps as nat) + ")\n- Unknown: "@ + decimal(
        c.unknown_count as nat,
    ) + " (with deps: "@ + decimal(c.unknown_with_deps as nat) + ", without deps: "@ + decimal(
        c.unknown_without_deps as nat,
    ) + ")\n- Total fingerprints: "@ + decimal(c.total_fingerprints as nat)
        + "\n\nCorrespondence Analysis:\n- Deps items without fingerprints: "@ + decimal(
        c.deps_without_fingerprints as nat,
    ) + "\n- Total deps items: "@ + decimal(c.total_deps_items as nat)
}

impl Beatrice {
    /// Both tables hold each key at most once.
    pub open spec fn wf(self) -> bool {
        self.fingerprint_library.wf() && self.deps_library.wf()
    }

    /// The freshness on record of each fingerprint, as plain text.
    pub open spec fn freshness_map(self) -> Map<Key, FreshnessModel> {
        self.fingerprint_library@.map_values(|info: FingerprintInfo| info.freshness@)
    }

    /// An empty index of the given profile directory.
    pub fn open(profile_dir: String) -> (r: Self)
        ensures
            r.wf(),
            r.profile_dir@ == profile_dir@,
            r.fingerprint_library@ == Map::<Key, FingerprintInfo>::empty(),
            r.deps_library@ == Map::<Key, ItemInfo>::empty(),
    {
        Beatrice {
            profile_dir,
            fingerprint_library: Library::new(),
            deps_library: Library::new(),
        }
    }

    /// The directory of the fingerprint records.
    pub fn fingerprint_dir(&self) -> (r: String)
        ensures
            r@ == joined_path(self.profile_dir@, ".fingerprint"@),
    {
        join_path(self.profile_dir.as_str(), ".fingerprint")
    }

    /// The directory of the compiled dependencies.
    pub fn deps_dir(&self) -> (r: String)
        ensures
            r@ == joined_path(self.profile_dir@, "deps"@),
    {
        join_path(self.profile_dir.as_str(), "deps")
    }

    /// The directory of the incremental-compilation sessions.
    pub fn incremental_dir(&self) -> (r: String)
        ensures
            r@ == joined_path(self.profile_dir@, "incremental"@),
    {
        join_path(self.profile_dir.as_str(), "incremental")
    }

    /// The directory of the session of the given name.
    pub fn session_path(&self, name: &str) -> (r: String)
        ensures
            r@ == joined_path(joined_path(self.profile_dir@, "incremental"@), name@),
    {
        join_path(self.incremental_dir().as_str(), name)
    }

    /// Rebuild both tables from listings of the fingerprint directory and of
    /// the deps directory. What the index held before is dropped. Entries
    /// whose name carries no identifier are passed over.
    pub fn load_library(&mut self, fingerprint_entries: &Vec<String>, deps_entries: &Vec<DepsEntry>)
        ensures
            final(self).wf(),
            final(self).profile_dir == old(self).profile_dir,
            final(self).fingerprint_library@ == scanned_fingerprints(
                fingerprint_entries.deep_view(),
            ),
            final(self).deps_library@ == scanned_deps(deps_entries@),
    {
        self.fingerprint_library.clear();
        self.deps_library.clear();
        self.scan_fingerprint_directory(fingerprint_entries);
        self.scan_deps_directory(deps_entries);
    }

    /// File the entries of the fingerprint directory in an empty fingerprint
    /// table.
    fn scan_fingerprint_directory(&mut self, entries: &Vec<String>)
        requires
            old(self).wf(),
            old(self).fingerprint_library@ == Map::<Key, FingerprintInfo>::empty(),
        ensures
            final(self).wf(),
            final(self).profile_dir == old(self).profile_dir,
            final(self).deps_library == old(self).deps_library,
            final(self).fingerprint_library@ == scanned_fingerprints(entries.deep_view()),
    {
        let ghost names = entries.deep_view();
        let n = entries.len();
        let mut i: usize = 0;
        while i < n
            invariant
                i <= n,
                n == entries@.len(),
                names == entries.deep_view(),
                self.wf(),
                self.profile_dir == old(self).profile_dir,
                self.deps_library == old(self).deps_library,
                self.fingerprint_library@ == scanned_fingerprints(names.take(i as int)),
            decreases n - i,
        {
            proof {
                let next = names.take(i + 1);
                assert(next.drop_last() =~= names.take(i as int));
            }
            match extract_fingerprint(entries[i].as_str()) {
                Some((name, hash)) => {
                    let normalized_name = normalize_package_name(name.as_str());
                    self.fingerprint_library.insert(
                        normalized_name,
                        hash,
                        FingerprintInfo { freshness: UnitFreshness::Unknown },
                    );
                },
                None => {},
            }
            i += 1;
        }
        assert(names.take(n as int) =~= names);
    }

    /// File the entries of the deps directory in an empty deps table.
    fn scan_deps_directory(&mut self, entries: &Vec<DepsEntry>)
        requires
            old(self).wf(),
            old(self).deps_library@ == Map::<Key, ItemInfo>::empty(),
        ensures
            final(self).wf(),
            final(self).profile_dir == old(self).profile_dir,
            final(self).fingerprint_library == old(self).fingerprint_library,
            final(self).deps_library@ == scanned_deps(entries@),
    {
        let n = entries.len();
        let mut i: usize = 0;
        while i < n
            invariant
                i <= n,
                n == entries@.len(),
                self.wf(),
                self.profile_dir == old(self).profile_dir,
                self.fingerprint_library == old(self).fingerprint_library,
                self.deps_library@ == scanned_deps(entries@.take(i as int)),
            decreases n - i,
        {
            proof {
                let next = entries@.take(i + 1);
                assert(next.drop_last() =~= entries@.take(i as int));
            }
            let entry = &entries[i];
            match extract_fingerprint(entry.file_name.as_str()) {
                Some((name, hash)) => {
                    let normalized_name = normalize_package_name(name.as_str());
                    self.deps_library.insert(
                        normalized_name,
                        hash,
                        ItemInfo { last_modified: entry.last_modified, size: entry.size },
                    );
                },
                None => {},
            }
            i += 1;
        }
        assert(entries@.take(n as int) =~= entries@);
    }

    /// Record the freshness of a fingerprint. Where the index holds no
    /// fingerprint under the normalized name and the hash, nothing changes.
    pub fn update_fingerprint_freshness(&mut self, name: &str, hash: &str, freshness: UnitFreshness)
        requires
            old(self).wf(),
        ensures
            final(self).wf(),
            final(self).profile_dir == old(self).profile_dir,
            final(self).deps_library == old(self).deps_library,
            final(self).fingerprint_library@.dom() == old(self).fingerprint_library@.dom(),
            final(self).fingerprint_library@ == (if old(self).fingerprint_library@.contains_key(
                (normalized(name@), hash@),
            ) {
                old(self).fingerprint_library@.insert(
                    (normalized(name@), hash@),
                    FingerprintInfo { freshness },
                )
            } else {
                old(self).fingerprint_library@
            }),
    {
        let normalized_name = normalize_package_name(name);
        self.fingerprint_library.replace(
            normalized_name.as_str(),
            hash,
            FingerprintInfo { freshness },
        );
    }

    /// The freshness of the fingerprint under the normalized name and the
    /// hash, if the index holds one.
    pub fn get_fingerprint_freshness(&self, name: &str, hash: &str) -> (r: Option<&UnitFreshness>)
        requires
            self.wf(),
        ensures
            match r {
                Some(freshness) => self.fingerprint_library@.contains_key(
                    (normalized(name@), hash@),
                ) && *freshness == self.fingerprint_library@[(normalized(name@), hash@)].freshness,
                None => !self.fingerprint_library@.contains_key((normalized(name@), hash@)),
            },
    {
        let normalized_name = normalize_package_name(name);
        match self.fingerprint_library.get(normalized_name.as_str(), hash) {
            Some(info) => Some(&info.freshness),
            None => None,
        }
    }

    /// Whether the index holds a fingerprint of the package, under any hash.
    pub fn has_package(&self, name: &str) -> (r: bool)
        requires
            self.wf(),
        ensures
            r == exists|hash: Seq<char>|
                self.fingerprint_library@.contains_key((normalized(name@), hash)),
    {
        let normalized_name = normalize_package_name(name);
        self.fingerprint_library.contains_name(normalized_name.as_str())
    }

    /// What the index keeps of the artifact under the normalized name and the
    /// hash, if it holds one.
    pub fn get_deps_info(&self, name: &str, hash: &str) -> (r: Option<&ItemInfo>)
        requires
            self.wf(),
        ensures
            match r {
                Some(info) => self.deps_library@.contains_key((normalized(name@), hash@)) && *info
                    == self.deps_library@[(normalized(name@), hash@)],
                None => !self.deps_library@.contains_key((normalized(name@), hash@)),
            },
    {
        let normalized_name = normalize_package_name(name);
        self.deps_library.get(normalized_name.as_str(), hash)
    }

    /// The counts of a report: the fingerprints by freshness, each count split
    /// by whether the deps table holds the fingerprint's key; the artifacts
    /// whose key the fingerprint table does not hold; and the size of either
    /// table.
    pub open spec fn counts(self) -> ReportCounts {
        let fingerprints = self.fingerprint_library;
        let deps = self.deps_library@;
        ReportCounts {
            fresh_count: fingerprints.count_where(fresh()) as usize,
            fresh_with_deps: fingerprints.count_where(paired(fresh(), deps, true)) as usize,
            fresh_without_deps: fingerprints.count_where(paired(fresh(), deps, false)) as usize,
            dirty_count: fingerprints.count_where(dirty()) as usize,
            dirty_with_deps: fingerprints.count_where(paired(dirty(), deps, true)) as usize,
            dirty_without_deps: fingerprints.count_where(paired(dirty(), deps, false)) as usize,
            unknown_count: fingerprints.count_where(unknown()) as usize,
            unknown_with_deps: fingerprints.count_where(paired(unknown(), deps, true)) as usize,
            unknown_without_deps: fingerprints.count_where(
                paired(unknown(), deps, false),
            ) as usize,
            total_fingerprints: fingerprints@.dom().len() as usize,
            deps_without_fingerprints: self.deps_library.count_where(
                orphaned(fingerprints@),
            ) as usize,
            total_deps_items: deps.dom().len() as usize,
        }
    }

    /// The counts over the first `n` fingerprint records, as the report's
    /// counting loop holds them.
    spec fn counted_fingerprints(self, n: int, c: ReportCounts) -> bool {
        let fingerprints = self.fingerprint_library;
        let deps = self.deps_library@;
        &&& c.fresh_count == fingerprints.count_among_first(n, fresh())
        &&& c.fresh_with_deps == fingerprints.count_among_first(n, paired(fresh(), deps, true))
        &&& c.fresh_without_deps == fingerprints.count_among_first(
            n,
            paired(fresh(), deps, false),
        )
        &&& c.dirty_count == fingerprints.count_among_first(n, dirty())
        &&& c.dirty_with_deps == fingerprints.count_among_first(n, paired(dirty(), deps, true))
        &&& c.dirty_without_deps == fingerprints.count_among_first(
            n,
            paired(dirty(), deps, false),
        )
        &&& c.unknown_count == fingerprints.count_among_first(n, unknown())
        &&& c.unknown_with_deps == fingerprints.count_among_first(
            n,
            paired(unknown(), deps, true),
        )
        &&& c.unknown_without_deps == fingerprints.count_among_first(
            n,
            paired(unknown(), deps, false),
        )
        &&& c.total_fingerprints == n
    }

    /// The counts over one fingerprint record more.
    spec fn counted_next(self, n: int, c: ReportCounts) -> ReportCounts {
        let with: int = if self.deps_library@.contains_key(self.fingerprint_library.keys()[n]) {
            1
        } else {
            0
        };
        let total = (c.total_fingerprints + 1) as usize;
        match self.fingerprint_library.values()[n].freshness {
            UnitFreshness::Fresh => ReportCounts {
                fresh_count: (c.fresh_count + 1) as usize,
                fresh_with_deps: (c.fresh_with_deps + with) as usize,
                fresh_without_deps: (c.fresh_without_deps + 1 - with) as usize,
                total_fingerprints: total,
                ..c
            },
            UnitFreshness::Dirty(_) => ReportCounts {
                dirty_count: (c.dirty_count + 1) as usize,
                dirty_with_deps: (c.dirty_with_deps + with) as usize,
                dirty_without_deps: (c.dirty_without_deps + 1 - with) as usize,
                total_fingerprints: total,
                ..c
            },
            UnitFreshness::Unknown => ReportCounts {
                unknown_count: (c.unknown_count + 1) as usize,
                unknown_with_deps: (c.unknown_with_deps + with) as usize,
                unknown_without_deps: (c.unknown_without_deps + 1 - with) as usize,
                total_fingerprints: total,
                ..c
            },
        }
    }

    /// Each count over the first `n` fingerprint records is at most `n`, and
    /// one record more raises the counts that it belongs to by one.
    proof fn lemma_counted_next(self, n: int, c: ReportCounts)
        requires
            self.wf(),
            0 <= n < self.fingerprint_library.keys().len(),
            self.counted_fingerprints(n, c),
        ensures
            c.fresh_count <= n,
            c.dirty_count <= n,
            c.unknown_count <= n,
            c.fresh_with_deps <= n,
            c.fresh_without_deps <= n,
            c.dirty_with_deps <= n,
            c.dirty_without_deps <= n,
            c.unknown_with_deps <= n,
            c.unknown_without_deps <= n,
            n < usize::MAX,
            self.counted_fingerprints(n + 1, self.counted_next(n, c)),
    {
        let fingerprints = self.fingerprint_library;
        let deps = self.deps_library@;
        fingerprints.lemma_keys();
        fingerprints.lemma_count_next(n, fresh());
        fingerprints.lemma_count_next(n, paired(fresh(), deps, true));
        fingerprints.lemma_count_next(n, paired(fresh(), deps, false));
        fingerprints.lemma_count_next(n, dirty());
        fingerprints.lemma_count_next(n, paired(dirty(), deps, true));
        fingerprints.lemma_count_next(n, paired(dirty(), deps, false));
        fingerprints.lemma_count_next(n, unknown());
        fingerprints.lemma_count_next(n, paired(unknown(), deps, true));
        fingerprints.lemma_count_next(n, paired(unknown(), deps, false));
    }

    /// Counting through all the fingerprint records gives the first ten counts
    /// of the report.
    proof fn lemma_counted_all(self, c: ReportCounts)
        requires
            self.wf(),
            self.counted_fingerprints(self.fingerprint_library.keys().len() as int, c),
        ensures
            c == (ReportCounts {
                deps_without_fingerprints: c.deps_without_fingerprints,
                total_deps_items: c.total_deps_items,
                ..self.counts()
            }),
    {
        let fingerprints = self.fingerprint_library;
        let deps = self.deps_library@;
        fingerprints.lemma_keys();
        fingerprints.lemma_count_all(fresh());
        fingerprints.lemma_count_all(paired(fresh(), deps, true));
        fingerprints.lemma_count_all(paired(fresh(), deps, false));
        fingerprints.lemma_count_all(dirty());
        fingerprints.lemma_count_all(paired(dirty(), deps, true));
        fingerprints.lemma_count_all(paired(dirty(), deps, false));
        fingerprints.lemma_count_all(unknown());
        fingerprints.lemma_count_all(paired(unknown(), deps, true));
        fingerprints.lemma_count_all(paired(unknown(), deps, false));
    }

    /// Count the fingerprints by freshness and by whether the deps table
    /// holds their key, and the artifacts without a fingerprint.
    pub fn report_counts(&self) -> (c: ReportCounts)
        requires
            self.wf(),
        ensures
            c == self.counts(),
    {
        let mut c = ReportCounts {
            fresh_count: 0,
            fresh_with_deps: 0,
            fresh_without_deps: 0,
            dirty_count: 0,
            dirty_with_deps: 0,
            dirty_without_deps: 0,
            unknown_count: 0,
            unknown_with_deps: 0,
            unknown_without_deps: 0,
            total_fingerprints: 0,
            deps_without_fingerprints: 0,
            total_deps_items: 0,
        };
        proof {
            let fingerprints = self.fingerprint_library;
            let deps = self.deps_library@;
            fingerprints.lemma_count_none(fresh());
            fingerprints.lemma_count_none(paired(fresh(), deps, true));
            fingerprints.lemma_count_none(paired(fresh(), deps, false));
            fingerprints.lemma_count_none(dirty());
            fingerprints.lemma_count_none(paired(dirty(), deps, true));
            fingerprints.lemma_count_none(paired(dirty(), deps, false));
            fingerprints.lemma_count_none(unknown());
            fingerprints.lemma_count_none(paired(unknown(), deps, true));
            fingerprints.lemma_count_none(paired(unknown(), deps, false));
        }
        let n = self.fingerprint_library.len();
        let mut i: usize = 0;
        while i < n
            invariant
                i <= n,
                n == self.fingerprint_library.keys().len(),
                self.wf(),
                self.counted_fingerprints(i as int, c),
                c.deps_without_fingerprints == 0,
                c.total_deps_items == 0,
            decreases n - i,
        {
            let with = self.deps_library.get(
                self.fingerprint_library.name_at(i),
                self.fingerprint_library.hash_at(i),
            ).is_some();
            proof {
                self.lemma_counted_next(i as int, c);
            }
            c.total_fingerprints += 1;
            match &self.fingerprint_library.value_at(i).freshness {
                UnitFreshness::Fresh => {
                    c.fresh_count += 1;
                    if with {
                        c.fresh_with_deps += 1;
                    } else {
                        c.fresh_without_deps += 1;
                    }
                },
                UnitFreshness::Dirty(_) => {
                    c.dirty_count += 1;
                    if with {
                        c.dirty_with_deps += 1;
                    } else {
                        c.dirty_without_deps += 1;
                    }
                },
                UnitFreshness::Unknown => {
                    c.unknown_count += 1;
                    if with {
                        c.unknown_with_deps += 1;
                    } else {
                        c.unknown_without_deps += 1;
                    }
                },
            }
            i += 1;
        }
        proof {
            self.lemma_counted_all(c);
            self.deps_library.lemma_count_none(orphaned(self.fingerprint_library@));
        }
        let m = self.deps_library.len();
        let mut j: usize = 0;
        while j < m
            invariant
                j <= m,
                m == self.deps_library.keys().len(),
                m == self.deps_library@.dom().len(),
                self.wf(),
                c == (ReportCounts {
                    deps_without_fingerprints: c.deps_without_fingerprints,
                    total_deps_items: 0,
                    ..self.counts()
                }),
                c.deps_without_fingerprints == self.deps_library.count_among_first(
                    j as int,
                    orphaned(self.fingerprint_library@),
                ),
            decreases m - j,
        {
            proof {
                self.deps_library.lemma_count_next(
                    j as int,
                    orphaned(self.fingerprint_library@),
                );
            }
            if self.fingerprint_library.find(
                self.deps_library.name_at(j),
                self.deps_library.hash_at(j),
            ).is_none() {
                c.deps_without_fingerprints += 1;
            }
            j += 1;
        }
        proof {
            self.deps_library.lemma_count_all(orphaned(self.fingerprint_library@));
        }
        c.total_deps_items = m;
        c
    }

    /// The report: how many fingerprints are fresh, dirty and of unknown
    /// freshness, how many of each have an artifact under the same key, and
    /// how many artifacts have no fingerprint.
    pub fn report(&self) -> (r: String)
        requires
            self.wf(),
        ensures
            r@ == render_report(self.counts()),
    {
        let c = self.report_counts();
        let mut out = String::new();
        out.append("Beatrice Report:\n\nFingerprint Analysis:\n- Fresh: ");
        push_decimal(&mut out, c.fresh_count as u64);
        out.append(" (with deps: ");
        push_decimal(&mut out, c.fresh_with_deps as u64);
        out.append(", without deps: ");
        push_decimal(&mut out, c.fresh_without_deps as u64);
        out.append(")\n- Dirty: ");
        push_decimal(&mut out, c.dirty_count as u64);
        out.append(" (with deps: ");
        push_decimal(&mut out, c.dirty_with_deps as u64);
        out.append(", without deps: ");
        push_decimal(&mut out, c.dirty_without_deps as u64);
        out.append(")\n- Unknown: ");
        push_decimal(&mut out, c.unknown_count as u64);
        out.append(" (with deps: ");
        push_decimal(&mut out, c.unknown_with_deps as u64);
        out.append(", without deps: ");
        push_decimal(&mut out, c.unknown_without_deps as u64);
        out.append(")\n- Total fingerprints: ");
        push_decimal(&mut out, c.total_fingerprints as u64);
        out.append("\n\nCorrespondence Analysis:\n- Deps items without fingerprints: ");
        push_decimal(&mut out, c.deps_without_fingerprints as u64);
        out.append("\n- Total deps items: ");
        push_decimal(&mut out, c.total_deps_items as u64);
        out
    }

    /// The counts over the first `n` fingerprint records, record by record.
    spec fn counted_through(self, n: nat) -> ReportCounts
        decreases n,
    {
        if n == 0 {
            ReportCounts {
                fresh_count: 0,
                fresh_with_deps: 0,
                fresh_without_deps: 0,
                dirty_count: 0,
                dirty_with_deps: 0,
                dirty_without_deps: 0,
                unknown_count: 0,
                unknown_with_deps: 0,
                unknown_without_deps: 0,
                total_fingerprints: 0,
                deps_without_fingerprints: 0,
                total_deps_items: 0,
            }
        } else {
            self.counted_next(n - 1, self.counted_through((n - 1) as nat))
        }
    }

    /// At every record, the counts with and without an artifact add up to the
    /// count of their freshness, and the three of these to the records so far.
    proof fn lemma_counted_through(self, n: nat)
        requires
            self.wf(),
            n <= self.fingerprint_library.keys().len(),
        ensures
            self.counted_fingerprints(n as int, self.counted_through(n)),
            ({
                let c = self.counted_through(n);
                &&& c.fresh_with_deps + c.fresh_without_deps == c.fresh_count
                &&& c.dirty_with_deps + c.dirty_without_deps == c.dirty_count
                &&& c.unknown_with_deps + c.unknown_without_deps == c.unknown_count
                &&& c.fresh_count + c.dirty_count + c.unknown_count == n
            }),
        decreases n,
    {
        let fingerprints = self.fingerprint_library;
        let deps = self.deps_library@;
        if n == 0 {
            fingerprints.lemma_count_none(fresh());
            fingerprints.lemma_count_none(paired(fresh(), deps, true));
            fingerprints.lemma_count_none(paired(fresh(), deps, false));
            fingerprints.lemma_count_none(dirty());
            fingerprints.lemma_count_none(paired(dirty(), deps, true));
            fingerprints.lemma_count_none(paired(dirty(), deps, false));
            fingerprints.lemma_count_none(unknown());
            fingerprints.lemma_count_none(paired(unknown(), deps, true));
            fingerprints.lemma_count_none(paired(unknown(), deps, false));
        } else {
            self.lemma_counted_through((n - 1) as nat);
            self.lemma_counted_next(n - 1, self.counted_through((n - 1) as nat));
        }
    }

    /// In every report the counts with and without an artifact add up to the
    /// count of their freshness, the three counts by freshness add up to the
    /// number of fingerprints, and the artifacts without a fingerprint are no
    /// more than the artifacts.
    pub proof fn lemma_report_counts_add_up(self)
        requires
            self.wf(),
        ensures
            ({
                let c = self.counts();
                &&& c.fresh_with_deps + c.fresh_without_deps == c.fresh_count
                &&& c.dirty_with_deps + c.dirty_without_deps == c.dirty_count
                &&& c.unknown_with_deps + c.unknown_without_deps == c.unknown_count
                &&& c.fresh_count + c.dirty_count + c.unknown_count == c.total_fingerprints
                &&& c.deps_without_fingerprints <= c.total_deps_items
            }),
    {
        let n = self.fingerprint_library.keys().len();
        self.lemma_counted_through(n);
        self.lemma_counted_all(self.counted_through(n));
        self.deps_library.lemma_keys();
        self.deps_library.lemma_count_all(orphaned(self.fingerprint_library@));
    }

    /// Select the incremental sessions to remove from a listing of the
    /// incremental directory: of each package every session but the newest.
    /// The result names the directories within the incremental directory.
    pub fn load_incremental(&mut self, entries: &Vec<SessionEntry>) -> (r: StringSet)
        ensures
            *final(self) == *old(self),
            r.wf(),
            r@ == stale_sessions(entries@),
    {
        stale_incremental_sessions(entries)
    }

    /// The size of a directory, from the sizes of the files below it. There
    /// is none where the sum is beyond what a size can hold.
    pub fn calculate_dir_size(file_sizes: &Vec<u64>) -> (r: Option<u64>)
        ensures
            r == (if sum_of(file_sizes@) <= u64::MAX {
                Some(sum_of(file_sizes@) as u64)
            } else {
                None
            }),
    {
        let mut total: u64 = 0;
        let n = file_sizes.len();
        let mut i: usize = 0;
        while i < n
            invariant
                i <= n,
                n == file_sizes@.len(),
                total == sum_of(file_sizes@.take(i as int)),
            decreases n - i,
        {
            proof {
                let next = file_sizes@.take(i + 1);
                assert(next.drop_last() =~= file_sizes@.take(i as int));
                lemma_sum_grows(file_sizes@, i + 1);
            }
            if file_sizes[i] > u64::MAX - total {
                return None;
            }
            total = total + file_sizes[i];
            i += 1;
        }
        assert(file_sizes@.take(n as int) =~= file_sizes@);
        Some(total)
    }
}

} // verus!
