//! Retention of incremental-compilation sessions: of the sessions of one
//! package only the newest is kept.

use vstd::prelude::*;
use crate::beatrice::Timestamp;
use crate::string_set::StringSet;
use crate::text::str_eq;
use crate::utils::{extract_fingerprint, parse_identifier};

verus! {

/// One entry of the incremental directory, as a listing of it gives it.
pub struct SessionEntry {
    /// The entry's name within the directory.
    pub file_name: String,
    /// Whether the entry is a directory.
    pub is_dir: bool,
    /// When the entry was last modified. Read only of a directory whose name
    /// carries an identifier.
    pub last_modified: Timestamp,
}

/// The package that an entry holds a session of: an entry is a session where
/// it is a directory whose name carries an identifier.
pub open spec fn session_package(entry: SessionEntry) -> Option<Seq<char>> {
    if entry.is_dir {
        match parse_identifier(entry.file_name@) {
            Some((name, hash)) => Some(name),
            None => None,
        }
    } else {
        None
    }
}

/// Entries `i` and `j` are both sessions, and of the same package.
pub open spec fn rivals(entries: Seq<SessionEntry>, i: int, j: int) -> bool {
    &&& session_package(entries[i]) is Some
    &&& session_package(entries[j]) == session_package(entries[i])
}

/// Session `i` holds its place against `j`: `j` is not newer, and where `j`
/// came first it is strictly older.
pub open spec fn outlasts(entries: Seq<SessionEntry>, i: int, j: int) -> bool {
    &&& entries[j].last_modified.nanos <= entries[i].last_modified.nanos
    &&& j < i ==> entries[j].last_modified.nanos < entries[i].last_modified.nanos
}

/// Session `i` is the one kept of its package: the newest, and of several
/// newest the first listed.
pub open spec fn retained(entries: Seq<SessionEntry>, i: int) -> bool {
    &&& session_package(entries[i]) is Some
    &&& forall|j: int|
        0 <= j < entries.len() && #[trigger] rivals(entries, i, j) ==> outlasts(entries, i, j)
}

/// Session `i` is not the one kept of its package.
pub open spec fn stale(entries: Seq<SessionEntry>, i: int) -> bool {
    session_package(entries[i]) is Some && !retained(entries, i)
}

/// The names of the directories to remove: those of the stale sessions.
pub open spec fn stale_sessions(entries: Seq<SessionEntry>) -> Set<Seq<char>> {
    Set::new(
        |name: Seq<char>|
            exists|i: int|
                0 <= i < entries.len() && #[trigger] stale(entries, i) && entries[i].file_name@
                    == name,
    )
}

/// A session that was listed before the last entry is kept with that entry
/// taken into account exactly if it was kept without it and the last entry
/// is no newer rival.
proof fn lemma_retained_earlier(entries: Seq<SessionEntry>, n: int, i: int)
    requires
        0 <= i < n < entries.len(),
    ensures
        retained(entries.take(n + 1), i) == (retained(entries.take(n), i) && (rivals(
            entries,
            i,
            n,
        ) ==> entries[n].last_modified.nanos <= entries[i].last_modified.nanos)),
{
    let short = entries.take(n);
    let long = entries.take(n + 1);
    if retained(long, i) {
        assert forall|j: int| 0 <= j < short.len() && #[trigger] rivals(short, i, j) implies outlasts(
            short,
            i,
            j,
        ) by {
            assert(rivals(long, i, j));
        }
        if rivals(entries, i, n) {
            assert(rivals(long, i, n));
        }
    }
    if retained(short, i) && (rivals(entries, i, n) ==> entries[n].last_modified.nanos
        <= entries[i].last_modified.nanos) {
        assert forall|j: int| 0 <= j < long.len() && #[trigger] rivals(long, i, j) implies outlasts(
            long,
            i,
            j,
        ) by {
            if j < n {
                assert(rivals(short, i, j));
            }
        }
    }
}

/// The last entry is kept exactly if it is a session and strictly newer than
/// every rival before it.
proof fn lemma_retained_last(entries: Seq<SessionEntry>, n: int)
    requires
        0 <= n < entries.len(),
    ensures
        retained(entries.take(n + 1), n) == (session_package(entries[n]) is Some && forall|j: int|
            0 <= j < n && #[trigger] rivals(entries, n, j) ==> entries[j].last_modified.nanos
                < entries[n].last_modified.nanos),
{
    let long = entries.take(n + 1);
    if retained(long, n) {
        assert forall|j: int|
            0 <= j < n && #[trigger] rivals(
                entries,
                n,
                j,
            ) implies entries[j].last_modified.nanos < entries[n].last_modified.nanos by {
            assert(rivals(long, n, j));
        }
    }
    if session_package(entries[n]) is Some && (forall|j: int|
        0 <= j < n && #[trigger] rivals(entries, n, j) ==> entries[j].last_modified.nanos
            < entries[n].last_modified.nanos) {
        assert forall|j: int| 0 <= j < long.len() && #[trigger] rivals(long, n, j) implies outlasts(
            long,
            n,
            j,
        ) by {
            if j < n {
                assert(rivals(entries, n, j));
            }
        }
    }
}

/// Of the sessions of one package at most one is kept.
pub proof fn lemma_one_retained_per_package(entries: Seq<SessionEntry>, i: int, j: int)
    requires
        0 <= i < entries.len(),
        0 <= j < entries.len(),
        rivals(entries, i, j),
        retained(entries, i),
        retained(entries, j),
    ensures
        i == j,
{
    assert(rivals(entries, j, i));
}

/// Of every package that has a session, one session is kept.
pub proof fn lemma_some_session_is_kept(entries: Seq<SessionEntry>, i: int)
    requires
        0 <= i < entries.len(),
        session_package(entries[i]) is Some,
    ensures
        exists|j: int|
            0 <= j < entries.len() && #[trigger] rivals(entries, i, j) && retained(entries, j),
    decreases entries.len(),
{
    let n = entries.len() - 1;
    let short = entries.take(n);
    assert(entries.take(n + 1) =~= entries);
    lemma_retained_last(entries, n);
    let earlier = if i < n {
        i
    } else {
        choose|j: int| 0 <= j < n && #[trigger] rivals(entries, n, j)
    };
    if 0 <= earlier < n && rivals(entries, i, earlier) {
        assert(rivals(short, earlier, earlier));
        lemma_some_session_is_kept(short, earlier);
        let kept = choose|j: int|
            0 <= j < short.len() && #[trigger] rivals(short, earlier, j) && retained(short, j);
        lemma_retained_earlier(entries, n, kept);
        assert(rivals(entries, i, kept));
        if rivals(entries, kept, n) && entries[n].last_modified.nanos
            > entries[kept].last_modified.nanos {
            assert forall|j: int| 0 <= j < n && #[trigger] rivals(
                entries,
                n,
                j,
            ) implies entries[j].last_modified.nanos < entries[n].last_modified.nanos by {
                assert(rivals(short, kept, j));
            }
            assert(rivals(entries, i, n) && retained(entries, n));
        } else {
            assert(retained(entries, kept));
        }
    } else {
        assert(rivals(entries, i, n) && retained(entries, n));
    }
}

/// A session that is strictly newer than every other session of its package
/// is the one kept.
pub proof fn lemma_newest_session_is_kept(entries: Seq<SessionEntry>, newest: int)
    requires
        0 <= newest < entries.len(),
        session_package(entries[newest]) is Some,
        forall|j: int|
            0 <= j < entries.len() && j != newest && #[trigger] rivals(entries, newest, j)
                ==> entries[j].last_modified.nanos < entries[newest].last_modified.nanos,
    ensures
        retained(entries, newest),
        !stale(entries, newest),
{
}

/// A session with a newer rival is stale, whichever of the two was listed
/// first.
pub proof fn lemma_newer_session_wins(entries: Seq<SessionEntry>, older: int, newer: int)
    requires
        0 <= older < entries.len(),
        0 <= newer < entries.len(),
        rivals(entries, older, newer),
        entries[older].last_modified.nanos < entries[newer].last_modified.nanos,
    ensures
        stale(entries, older),
        stale_sessions(entries).contains(entries[older].file_name@),
{
    assert(stale(entries, older));
}

/// Of two rivals of the same age the one listed later is stale.
pub proof fn lemma_first_listed_wins_ties(entries: Seq<SessionEntry>, first: int, second: int)
    requires
        0 <= first < second < entries.len(),
        rivals(entries, second, first),
        entries[first].last_modified.nanos == entries[second].last_modified.nanos,
    ensures
        stale(entries, second),
        stale_sessions(entries).contains(entries[second].file_name@),
{
    assert(stale(entries, second));
}

/// What one entry more adds to the stale sessions, given which session it
/// makes stale: an earlier one, itself, or none.
proof fn lemma_stale_step(entries: Seq<SessionEntry>, n: int, added: Option<int>)
    requires
        0 <= n < entries.len(),
        added is Some ==> 0 <= added->0 <= n,
        forall|i: int|
            0 <= i < n ==> #[trigger] stale(entries.take(n + 1), i) == (stale(entries.take(n), i)
                || added == Some(i)),
        stale(entries.take(n + 1), n) == (added == Some(n)),
    ensures
        stale_sessions(entries.take(n + 1)) == (match added {
            Some(a) => stale_sessions(entries.take(n)).insert(entries[a].file_name@),
            None => stale_sessions(entries.take(n)),
        }),
{
    let short = entries.take(n);
    let long = entries.take(n + 1);
    let expected = match added {
        Some(a) => stale_sessions(short).insert(entries[a].file_name@),
        None => stale_sessions(short),
    };
    assert forall|name: Seq<char>| stale_sessions(long).contains(name) <==> expected.contains(
        name,
    ) by {
        if stale_sessions(short).contains(name) {
            let i = choose|i: int|
                0 <= i < short.len() && #[trigger] stale(short, i) && short[i].file_name@ == name;
            assert(stale(long, i));
        }
        if added is Some && name == entries[added->0].file_name@ {
            let a = added->0;
            assert(stale(long, a));
        }
    }
}

/// The session kept of a package so far, by its place in the listing.
struct Kept {
    name: String,
    at: usize,
}

/// The sessions kept of the first `n` entries: one of each package that has
/// a session among them.
spec fn kept_of(entries: Seq<SessionEntry>, n: int, kept: Seq<Kept>) -> bool {
    &&& forall|k: int|
        0 <= k < kept.len() ==> {
            &&& (#[trigger] kept[k]).at < n
            &&& session_package(entries[kept[k].at as int]) == Some(kept[k].name@)
            &&& retained(entries.take(n), kept[k].at as int)
        }
    &&& forall|k1: int, k2: int|
        0 <= k1 < k2 < kept.len() ==> (#[trigger] kept[k1]).name@ != (#[trigger] kept[k2]).name@
    &&& forall|i: int|
        0 <= i < n && (#[trigger] session_package(entries[i])) is Some ==> exists|k: int|
            0 <= k < kept.len() && Some((#[trigger] kept[k]).name@) == session_package(entries[i])
}

/// A further entry that is no session changes nothing.
proof fn lemma_step_skip(entries: Seq<SessionEntry>, n: int, kept: Seq<Kept>)
    requires
        0 <= n < entries.len(),
        kept_of(entries, n, kept),
        session_package(entries[n]) is None,
    ensures
        kept_of(entries, n + 1, kept),
        stale_sessions(entries.take(n + 1)) == stale_sessions(entries.take(n)),
{
    let short = entries.take(n);
    let long = entries.take(n + 1);
    assert forall|j: int| 0 <= j < n implies #[trigger] stale(long, j) == stale(short, j) by {
        lemma_retained_earlier(entries, n, j);
    }
    lemma_stale_step(entries, n, None);
    assert forall|k: int| 0 <= k < kept.len() implies retained(
        long,
        (#[trigger] kept[k]).at as int,
    ) by {
        lemma_retained_earlier(entries, n, kept[k].at as int);
    }
}

/// A further entry that is the first session of its package is kept, and
/// changes nothing else.
proof fn lemma_step_first(entries: Seq<SessionEntry>, n: int, kept: Seq<Kept>, grown: Seq<Kept>)
    requires
        0 <= n < entries.len(),
        kept_of(entries, n, kept),
        session_package(entries[n]) is Some,
        forall|k: int|
            0 <= k < kept.len() ==> Some((#[trigger] kept[k]).name@) != session_package(entries[n]),
        grown.len() == kept.len() + 1,
        forall|k: int| 0 <= k < kept.len() ==> #[trigger] grown[k] == kept[k],
        Some(grown[kept.len() as int].name@) == session_package(entries[n]),
        grown[kept.len() as int].at == n,
    ensures
        kept_of(entries, n + 1, grown),
        stale_sessions(entries.take(n + 1)) == stale_sessions(entries.take(n)),
{
    let short = entries.take(n);
    let long = entries.take(n + 1);
    assert forall|j: int| 0 <= j < n implies #[trigger] stale(long, j) == stale(short, j) by {
        lemma_retained_earlier(entries, n, j);
    }
    lemma_stale_step(entries, n, None);
    assert forall|k: int| 0 <= k < grown.len() implies {
        &&& (#[trigger] grown[k]).at < n + 1
        &&& session_package(entries[grown[k].at as int]) == Some(grown[k].name@)
        &&& retained(long, grown[k].at as int)
    } by {
        if k < kept.len() {
            lemma_retained_earlier(entries, n, kept[k].at as int);
        }
    }
    assert forall|k1: int, k2: int| 0 <= k1 < k2 < grown.len() implies (#[trigger] grown[k1]).name@
        != (#[trigger] grown[k2]).name@ by {
    }
    assert forall|j: int|
        0 <= j < n + 1 && (#[trigger] session_package(entries[j])) is Some implies exists|k: int|
        0 <= k < grown.len() && Some((#[trigger] grown[k]).name@) == session_package(
            entries[j],
        ) by {
        if j < n {
            let k = choose|k: int|
                0 <= k < kept.len() && Some((#[trigger] kept[k]).name@) == session_package(
                    entries[j],
                );
            assert(grown[k] == kept[k]);
        }
    }
}

/// A further session that is strictly newer than the one kept of its package
/// takes its place, and the one kept so far becomes stale.
proof fn lemma_step_newer(
    entries: Seq<SessionEntry>,
    n: int,
    kept: Seq<Kept>,
    k: int,
    moved: Seq<Kept>,
)
    requires
        0 <= n < entries.len(),
        kept_of(entries, n, kept),
        0 <= k < kept.len(),
        Some(kept[k].name@) == session_package(entries[n]),
        entries[n].last_modified.nanos > entries[kept[k].at as int].last_modified.nanos,
        moved.len() == kept.len(),
        forall|k2: int| 0 <= k2 < kept.len() && k2 != k ==> #[trigger] moved[k2] == kept[k2],
        moved[k].name@ == kept[k].name@,
        moved[k].at == n,
    ensures
        kept_of(entries, n + 1, moved),
        stale_sessions(entries.take(n + 1)) == stale_sessions(entries.take(n)).insert(
            entries[kept[k].at as int].file_name@,
        ),
{
    let short = entries.take(n);
    let long = entries.take(n + 1);
    let at = kept[k].at as int;
    lemma_retained_last(entries, n);
    assert forall|j: int| 0 <= j < n && #[trigger] rivals(
        entries,
        n,
        j,
    ) implies entries[j].last_modified.nanos < entries[n].last_modified.nanos by {
        assert(rivals(short, at, j));
    }
    assert forall|j: int| 0 <= j < n implies #[trigger] stale(long, j) == (stale(short, j) || j
        == at) by {
        lemma_retained_earlier(entries, n, j);
        if rivals(entries, j, n) && retained(short, j) {
            lemma_one_retained_per_package(short, j, at);
        }
    }
    lemma_stale_step(entries, n, Some(at));
    assert forall|k2: int| 0 <= k2 < moved.len() implies {
        &&& (#[trigger] moved[k2]).at < n + 1
        &&& session_package(entries[moved[k2].at as int]) == Some(moved[k2].name@)
        &&& retained(long, moved[k2].at as int)
    } by {
        if k2 != k {
            lemma_retained_earlier(entries, n, kept[k2].at as int);
        }
    }
    assert forall|j: int|
        0 <= j < n + 1 && (#[trigger] session_package(entries[j])) is Some implies exists|k2: int|
        0 <= k2 < moved.len() && Some((#[trigger] moved[k2]).name@) == session_package(
            entries[j],
        ) by {
        if j < n {
            let k2 = choose|k2: int|
                0 <= k2 < kept.len() && Some((#[trigger] kept[k2]).name@) == session_package(
                    entries[j],
                );
            assert(Some(moved[k2].name@) == session_package(entries[j]));
        }
    }
}

/// A further session that is no newer than the one kept of its package is
/// stale, and changes nothing else.
proof fn lemma_step_older(entries: Seq<SessionEntry>, n: int, kept: Seq<Kept>, k: int)
    requires
        0 <= n < entries.len(),
        kept_of(entries, n, kept),
        0 <= k < kept.len(),
        Some(kept[k].name@) == session_package(entries[n]),
        entries[n].last_modified.nanos <= entries[kept[k].at as int].last_modified.nanos,
    ensures
        kept_of(entries, n + 1, kept),
        stale_sessions(entries.take(n + 1)) == stale_sessions(entries.take(n)).insert(
            entries[n].file_name@,
        ),
{
    let short = entries.take(n);
    let long = entries.take(n + 1);
    let at = kept[k].at as int;
    lemma_retained_last(entries, n);
    assert(rivals(entries, n, at));
    assert forall|j: int| 0 <= j < n implies #[trigger] stale(long, j) == stale(short, j) by {
        lemma_retained_earlier(entries, n, j);
        if rivals(entries, j, n) && retained(short, j) {
            lemma_one_retained_per_package(short, j, at);
        }
    }
    lemma_stale_step(entries, n, Some(n));
    assert forall|k2: int| 0 <= k2 < kept.len() implies retained(
        long,
        (#[trigger] kept[k2]).at as int,
    ) by {
        lemma_retained_earlier(entries, n, kept[k2].at as int);
    }
}

/// The place of the given package among the kept sessions.
fn find_kept(kept: &Vec<Kept>, name: &str) -> (r: Option<usize>)
    ensures
        match r {
            Some(k) => k < kept@.len() && kept@[k as int].name@ == name@,
            None => forall|k: int| 0 <= k < kept@.len() ==> (#[trigger] kept@[k]).name@ != name@,
        },
{
    let n = kept.len();
    let mut k: usize = 0;
    while k < n
        invariant
            k <= n,
            n == kept@.len(),
            forall|j: int| 0 <= j < k ==> (#[trigger] kept@[j]).name@ != name@,
        decreases n - k,
    {
        if str_eq(kept[k].name.as_str(), name) {
            return Some(k);
        }
        k += 1;
    }
    None
}

/// Select the sessions to remove: of each package every session but the
/// newest, and of several newest every one but the first listed.
pub fn stale_incremental_sessions(entries: &Vec<SessionEntry>) -> (r: StringSet)
    ensures
        r.wf(),
        r@ == stale_sessions(entries@),
{
    let mut remove = StringSet::new();
    let mut kept: Vec<Kept> = Vec::new();
    let n = entries.len();
    let mut i: usize = 0;
    while i < n
        invariant
            i <= n,
            n == entries@.len(),
            remove.wf(),
            remove@ == stale_sessions(entries@.take(i as int)),
            kept_of(entries@, i as int, kept@),
        decreases n - i,
    {
        let entry = &entries[i];
        let ghost before = kept@;
        let parsed = if entry.is_dir {
            extract_fingerprint(entry.file_name.as_str())
        } else {
            None
        };
        match parsed {
            None => {
                proof {
                    lemma_step_skip(entries@, i as int, before);
                }
            },
            Some((name, hash)) => {
                match find_kept(&kept, name.as_str()) {
                    Some(k) => {
                        let at = kept[k].at;
                        if entry.last_modified.is_after(entries[at].last_modified) {
                            remove.insert(entries[at].file_name.clone());
                            kept[k].at = i;
                            proof {
                                lemma_step_newer(entries@, i as int, before, k as int, kept@);
                            }
                        } else {
                            remove.insert(entry.file_name.clone());
                            proof {
                                lemma_step_older(entries@, i as int, before, k as int);
                            }
                        }
                    },
                    None => {
                        kept.push(Kept { name, at: i });
                        proof {
                            lemma_step_first(entries@, i as int, before, kept@);
                        }
                    },
                }
            },
        }
        i += 1;
    }
    assert(entries@.take(n as int) =~= entries@);
    remove
}

} // verus!
