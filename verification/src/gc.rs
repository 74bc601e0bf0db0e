//! The collector: which artifacts of the deps tree are outdated, what a run
//! removes, and the account of what it removed.

use vstd::prelude::*;
use vstd::string::StringExecFns;
use crate::error::GcError;
use crate::incremental::{stale_incremental_sessions, stale_sessions, SessionEntry};
use crate::library::Key;
use crate::outputs::Fingerprints;
use crate::paths::{
    extension, file_stem, path_extension, path_file_stem, quote_path, quoted_path,
};
use crate::string_set::StringSet;
use crate::text::{decimal, push_decimal, str_eq};
use crate::utils::{extract_fingerprint, parse_identifier};

verus! {

/// One file of the deps tree.
pub struct ArtifactRecord {
    /// The package name in the file's name, as the file name spells it.
    pub name: String,
    /// The hash in the file's name.
    pub hash: String,
    /// The file's extension, if it has one.
    pub extension: Option<String>,
    /// The file's absolute canonical path.
    pub path: String,
}

/// An artifact record as plain text.
pub struct ArtifactModel {
    pub name: Seq<char>,
    pub hash: Seq<char>,
    pub extension: Option<Seq<char>>,
    pub path: Seq<char>,
}

impl View for ArtifactRecord {
    type V = ArtifactModel;

    open spec fn view(&self) -> ArtifactModel {
        ArtifactModel {
            name: self.name@,
            hash: self.hash@,
            extension: self.extension.deep_view(),
            path: self.path@,
        }
    }
}

/// The artifact record of a file with the given stem, extension and canonical
/// path. A file whose stem carries no identifier is no artifact.
pub open spec fn artifact_of(
    stem: Seq<char>,
    extension: Option<Seq<char>>,
    path: Seq<char>,
) -> Option<ArtifactModel> {
    match parse_identifier(stem) {
        Some((name, hash)) => Some(ArtifactModel { name, hash, extension, path }),
        None => None,
    }
}

/// An artifact is outdated where the live set does not hold its identifier.
/// A dependency-info file (extension `d`) never is: the build tool reads those
/// on its own account.
pub open spec fn outdated(artifact: ArtifactModel, live: Set<Key>) -> bool {
    artifact.extension != Some("d"@) && !live.contains((artifact.name, artifact.hash))
}

/// The paths of the outdated artifacts among the given ones.
pub open spec fn outdated_paths(artifacts: Seq<ArtifactRecord>, live: Set<Key>) -> Set<Seq<char>> {
    Set::new(
        |path: Seq<char>|
            exists|i: int|
                0 <= i < artifacts.len() && outdated((#[trigger] artifacts[i])@, live)
                    && artifacts[i].path@ == path,
    )
}

impl ArtifactRecord {
    /// The artifact record of a file, from its stem, its extension and its
    /// canonical path.
    pub fn from_parts(stem: &str, extension: Option<String>, path: String) -> (r: Option<Self>)
        ensures
            r.deep_view() == artifact_of(stem@, extension.deep_view(), path@),
    {
        match extract_fingerprint(stem) {
            Some((name, hash)) => Some(ArtifactRecord { name, hash, extension, path }),
            None => None,
        }
    }

    /// The artifact record of a file of the deps tree, from its path within
    /// the tree and its canonical path. A path without a file stem is refused.
    pub fn from_path(path: &str, canonical_path: String) -> (r: Result<Option<Self>, GcError>)
        ensures
            match path_file_stem(path@) {
                Some(stem) => r is Ok && r->Ok_0.deep_view() == artifact_of(
                    stem,
                    path_extension(path@),
                    canonical_path@,
                ),
                None => r is Err && r->Err_0 is MissingFileStem && r->Err_0->MissingFileStem_0@
                    == path@,
            },
    {
        let ext = extension(path);
        match file_stem(path) {
            Some(stem) => Ok(Self::from_parts(stem.as_str(), ext, canonical_path)),
            None => Err(GcError::MissingFileStem(path.to_owned())),
        }
    }

    /// Whether this artifact is outdated against the given live set.
    pub fn is_outdated(&self, live: &Fingerprints) -> (r: bool)
        requires
            live.wf(),
        ensures
            r == outdated(self@, live@),
    {
        let is_dep_info = match &self.extension {
            Some(ext) => str_eq(ext.as_str(), "d"),
            None => false,
        };
        !is_dep_info && !live.contains(self.name.as_str(), self.hash.as_str())
    }
}

impl DeepView for ArtifactRecord {
    type V = ArtifactModel;

    open spec fn deep_view(&self) -> ArtifactModel {
        self@
    }
}

/// Select the outdated artifacts of the deps tree, by their paths.
pub fn select_outdated(artifacts: &Vec<ArtifactRecord>, live: &Fingerprints) -> (r: StringSet)
    requires
        live.wf(),
    ensures
        r.wf(),
        r@ == outdated_paths(artifacts@, live@),
{
    let mut selected = StringSet::new();
    let n = artifacts.len();
    let mut i: usize = 0;
    while i < n
        invariant
            i <= n,
            n == artifacts@.len(),
            live.wf(),
            selected.wf(),
            selected@ == outdated_paths(artifacts@.take(i as int), live@),
        decreases n - i,
    {
        let ghost short = artifacts@.take(i as int);
        let ghost long = artifacts@.take(i + 1);
        let chosen = artifacts[i].is_outdated(live);
        if chosen {
            selected.insert(artifacts[i].path.clone());
        }
        proof {
            let path = artifacts@[i as int].path@;
            assert forall|p: Seq<char>|
                outdated_paths(long, live@).contains(p) <==> (outdated_paths(
                    short,
                    live@,
                ).contains(p) || (chosen && p == path)) by {
                if chosen && p == path {
                    assert(long[i as int] == artifacts@[i as int]);
                }
            }
        }
        i += 1;
    }
    assert(artifacts@.take(n as int) =~= artifacts@);
    selected
}

/// A dependency-info file is never selected, whatever the live set holds.
pub proof fn lemma_dep_info_is_never_outdated(artifact: ArtifactModel, live: Set<Key>)
    requires
        artifact.extension == Some("d"@),
    ensures
        !outdated(artifact, live),
{
}

/// Apart from dependency-info files, an artifact is selected exactly if the
/// live set does not hold its identifier.
pub proof fn lemma_outdated_iff_not_live(artifact: ArtifactModel, live: Set<Key>)
    requires
        artifact.extension != Some("d"@),
    ensures
        outdated(artifact, live) <==> !live.contains((artifact.name, artifact.hash)),
{
}

/// What a run is to remove.
pub struct RemovalPlan {
    /// The outdated files of the deps tree, by their canonical paths.
    pub files: StringSet,
    /// The stale sessions, by their names within the incremental directory.
    pub incremental: StringSet,
    /// Whether the run removes anything: a dry run only selects.
    pub execute: bool,
}

impl RemovalPlan {
    /// The plan holds what is selected from the given state, in the given
    /// mode.
    pub open spec fn is_plan_of(
        self,
        dry_run: bool,
        artifacts: Seq<ArtifactRecord>,
        live: Set<Key>,
        sessions: Seq<SessionEntry>,
    ) -> bool {
        &&& self.files.wf()
        &&& self.incremental.wf()
        &&& self.files@ == outdated_paths(artifacts, live)
        &&& self.incremental@ == stale_sessions(sessions)
        &&& self.execute == !dry_run
    }

    /// Select what a run is to remove: the outdated artifacts of the deps
    /// tree and the stale sessions of the incremental tree.
    pub fn select(
        dry_run: bool,
        artifacts: &Vec<ArtifactRecord>,
        live: &Fingerprints,
        sessions: &Vec<SessionEntry>,
    ) -> (plan: Self)
        requires
            live.wf(),
        ensures
            plan.is_plan_of(dry_run, artifacts@, live@, sessions@),
    {
        RemovalPlan {
            files: select_outdated(artifacts, live),
            incremental: stale_incremental_sessions(sessions),
            execute: !dry_run,
        }
    }
}

/// A dry run selects what a real run on the same state selects.
pub proof fn lemma_dry_run_selects_the_same(
    rehearsed: RemovalPlan,
    executed: RemovalPlan,
    artifacts: Seq<ArtifactRecord>,
    live: Set<Key>,
    sessions: Seq<SessionEntry>,
)
    requires
        rehearsed.is_plan_of(true, artifacts, live, sessions),
        executed.is_plan_of(false, artifacts, live, sessions),
    ensures
        rehearsed.files@ == executed.files@,
        rehearsed.incremental@ == executed.incremental@,
        !rehearsed.execute,
        executed.execute,
{
}

/// One thing that a run is to remove.
pub struct Target {
    /// The path of a file, or the name of a session within the incremental
    /// directory.
    pub path: String,
    /// Whether the target is a session directory, to be removed with all that
    /// is in it.
    pub is_directory: bool,
}

/// How an attempt to remove a target ended.
pub struct Outcome {
    /// The size of the target in bytes, measured before the attempt.
    pub size: u64,
    /// Whether the target was removed.
    pub removed: bool,
}

/// A run in progress: what is to be removed, how far the run has come, and
/// the account of what it removed so far.
pub struct RemovalRun {
    /// What the run is to remove, the files first.
    pub targets: Vec<Target>,
    /// How many of the targets the run has gone through.
    pub attempted: usize,
    pub files_selected: usize,
    pub directories_selected: usize,
    pub files_removed: usize,
    pub directories_removed: usize,
    pub files_failed: usize,
    pub directories_failed: usize,
    /// The sizes of the removed targets, summed up.
    pub bytes_freed: u64,
}

/// The counts of a run, for its final report.
#[derive(Debug, Clone, Copy, PartialEq, Eq, Structural)]
pub struct FinalReport {
    pub files_removed: usize,
    pub files_selected: usize,
    pub directories_removed: usize,
    pub directories_selected: usize,
    pub bytes_freed: u64,
    pub failures: usize,
}

/// How many of the first `n` targets are files.
pub open spec fn files_among(targets: Seq<Target>, n: int) -> int
    decreases n,
{
    if n <= 0 {
        0
    } else {
        files_among(targets, n - 1) + (if targets[n - 1].is_directory {
            0int
        } else {
            1int
        })
    }
}

/// The targets as plain text: path, and whether it is a directory.
pub open spec fn target_texts(targets: Seq<Target>) -> Seq<(Seq<char>, bool)> {
    targets.map_values(|t: Target| (t.path@, t.is_directory))
}

/// The targets of a plan: its files, then its sessions.
pub open spec fn planned_targets(files: Seq<Seq<char>>, sessions: Seq<Seq<char>>) -> Seq<
    (Seq<char>, bool),
> {
    files.map_values(|p: Seq<char>| (p, false)) + sessions.map_values(|p: Seq<char>| (p, true))
}

/// A size in bytes as a person reads it, in decimal units: what
/// `humansize::format_size` gives for it with the options `DECIMAL`.
pub uninterp spec fn decimal_size_text(bytes: u64) -> Seq<char>;

/// A size in bytes as a person reads it, in decimal units.
///
/// Trusted: this is `humansize::format_size` with the options `DECIMAL`. The
/// contract only names its result, which depends on the number alone.
#[verifier::external_body]
fn format_size(bytes: u64) -> (r: String)
    ensures
        r@ == decimal_size_text(bytes),
{
    humansize::format_size(bytes, humansize::DECIMAL)
}

/// What is said of failures at the end of a run: nothing where there were
/// none.
pub open spec fn failure_text(failures: usize) -> Seq<char> {
    if failures == 0 {
        Seq::empty()
    } else {
        ", "@ + decimal(failures as nat) + " files failed to remove"@
    }
}

/// The closing line of a run: the files and the incremental directories
/// removed, each against those selected, where they were, the bytes freed, and
/// the failures if there were any.
pub open spec fn summary_text(report: FinalReport, profile_dir: Seq<char>) -> Seq<char> {
    "Removed "@ + decimal(report.files_removed as nat) + " of "@ + decimal(
        report.files_selected as nat,
    ) + " files and "@ + decimal(report.directories_removed as nat) + " of "@ + decimal(
        report.directories_selected as nat,
    ) + " incremental directories from "@ + quoted_path(profile_dir) + ", "@ + decimal_size_text(
        report.bytes_freed,
    ) + " total"@ + failure_text(report.failures)
}

/// The sizes of the removed among the given outcomes, summed up.
pub open spec fn freed_by(outcomes: Seq<Outcome>) -> int
    decreases outcomes.len(),
{
    if outcomes.len() == 0 {
        0
    } else {
        freed_by(outcomes.drop_last()) + (if outcomes.last().removed {
            outcomes.last().size as int
        } else {
            0int
        })
    }
}

/// The sizes of all the given outcomes, summed up.
pub open spec fn measured_by(outcomes: Seq<Outcome>) -> int
    decreases outcomes.len(),
{
    if outcomes.len() == 0 {
        0
    } else {
        measured_by(outcomes.drop_last()) + outcomes.last().size
    }
}

/// How many of the given outcomes are failures.
pub open spec fn failures_in(outcomes: Seq<Outcome>) -> int
    decreases outcomes.len(),
{
    if outcomes.len() == 0 {
        0
    } else {
        failures_in(outcomes.drop_last()) + (if outcomes.last().removed {
            0int
        } else {
            1int
        })
    }
}

impl RemovalRun {
    /// The account agrees with how far the run has come.
    pub open spec fn wf(self) -> bool {
        &&& self.attempted <= self.targets@.len()
        &&& self.files_selected == files_among(self.targets@, self.targets@.len() as int)
        &&& self.files_selected + self.directories_selected == self.targets@.len()
        &&& self.files_removed + self.files_failed == files_among(
            self.targets@,
            self.attempted as int,
        )
        &&& self.files_removed + self.files_failed + self.directories_removed
            + self.directories_failed == self.attempted
    }

    /// Nothing has been attempted yet.
    pub open spec fn fresh(self) -> bool {
        &&& self.attempted == 0
        &&& self.files_removed == 0
        &&& self.files_failed == 0
        &&& self.directories_removed == 0
        &&& self.directories_failed == 0
        &&& self.bytes_freed == 0
    }

    /// Whether every target has been gone through.
    pub open spec fn finished(self) -> bool {
        self.attempted >= self.targets@.len()
    }

    /// The run after the attempt on its next target ended as given. The size
    /// of a removed target counts as freed; a failure is counted and frees
    /// nothing. A finished run stays as it is.
    pub open spec fn after(self, outcome: Outcome) -> RemovalRun {
        if self.finished() {
            self
        } else {
            let directory = self.targets@[self.attempted as int].is_directory;
            let one: int = 1;
            RemovalRun {
                attempted: (self.attempted + 1) as usize,
                files_removed: (self.files_removed + (if !directory && outcome.removed {
                    one
                } else {
                    0
                })) as usize,
                files_failed: (self.files_failed + (if !directory && !outcome.removed {
                    one
                } else {
                    0
                })) as usize,
                directories_removed: (self.directories_removed + (if directory && outcome.removed {
                    one
                } else {
                    0
                })) as usize,
                directories_failed: (self.directories_failed + (if directory && !outcome.removed {
                    one
                } else {
                    0
                })) as usize,
                bytes_freed: (self.bytes_freed + (if outcome.removed {
                    outcome.size as int
                } else {
                    0
                })) as u64,
                ..self
            }
        }
    }

    /// The run after a row of attempts.
    pub open spec fn after_all(self, outcomes: Seq<Outcome>) -> RemovalRun
        decreases outcomes.len(),
    {
        if outcomes.len() == 0 {
            self
        } else {
            self.after_all(outcomes.drop_last()).after(outcomes.last())
        }
    }

    /// The counts for the final report.
    pub open spec fn counts(self) -> FinalReport {
        FinalReport {
            files_removed: self.files_removed,
            files_selected: self.files_selected,
            directories_removed: self.directories_removed,
            directories_selected: self.directories_selected,
            bytes_freed: self.bytes_freed,
            failures: (self.files_failed + self.directories_failed) as usize,
        }
    }

    /// Begin to carry out a plan. A plan of a dry run is not carried out.
    pub fn start(plan: RemovalPlan) -> (r: Option<Self>)
        requires
            plan.files.wf(),
            plan.incremental.wf(),
        ensures
            r is Some <==> plan.execute,
            r is Some ==> {
                let run = r->0;
                &&& run.wf()
                &&& run.fresh()
                &&& target_texts(run.targets@) == planned_targets(
                    plan.files.texts(),
                    plan.incremental.texts(),
                )
                &&& run.files_selected == plan.files@.len()
                &&& run.directories_selected == plan.incremental@.len()
            },
    {
        if !plan.execute {
            return None;
        }
        proof {
            plan.files.lemma_texts();
            plan.incremental.lemma_texts();
        }
        let ghost file_texts = plan.files.texts();
        let ghost session_texts = plan.incremental.texts();
        let files = plan.files.into_vec();
        let sessions = plan.incremental.into_vec();
        let mut targets: Vec<Target> = Vec::new();
        let n = files.len();
        let m = sessions.len();
        let mut i: usize = 0;
        while i < n
            invariant
                i <= n,
                n == files@.len(),
                files.deep_view() == file_texts,
                targets@.len() == i,
                files_among(targets@, i as int) == i,
                forall|k: int|
                    0 <= k < i ==> (#[trigger] targets@[k]).path@ == file_texts[k]
                        && !targets@[k].is_directory,
            decreases n - i,
        {
            let path = files[i].clone();
            let ghost before = targets@;
            targets.push(Target { path, is_directory: false });
            proof {
                lemma_files_among_prefix(before, targets@, i as int);
            }
            i += 1;
        }
        let mut j: usize = 0;
        while j < m
            invariant
                j <= m,
                m == sessions@.len(),
                sessions.deep_view() == session_texts,
                n == file_texts.len(),
                targets@.len() == n + j,
                files_among(targets@, n + j) == n,
                forall|k: int|
                    0 <= k < n ==> (#[trigger] targets@[k]).path@ == file_texts[k]
                        && !targets@[k].is_directory,
                forall|k: int|
                    0 <= k < j ==> (#[trigger] targets@[n + k]).path@ == session_texts[k]
                        && targets@[n + k].is_directory,
            decreases m - j,
        {
            let path = sessions[j].clone();
            let ghost before = targets@;
            targets.push(Target { path, is_directory: true });
            proof {
                lemma_files_among_prefix(before, targets@, n + j);
            }
            j += 1;
        }
        proof {
            let texts = target_texts(targets@);
            let planned = planned_targets(file_texts, session_texts);
            assert forall|k: int| 0 <= k < texts.len() implies texts[k] == planned[k] by {
                if k >= n {
                    assert(targets@[n + (k - n)].path@ == session_texts[k - n]);
                }
            }
        }
        Some(
            RemovalRun {
                targets,
                attempted: 0,
                files_selected: n,
                directories_selected: m,
                files_removed: 0,
                directories_removed: 0,
                files_failed: 0,
                directories_failed: 0,
                bytes_freed: 0,
            },
        )
    }

    /// The target to attempt next, if any is left.
    pub fn next(&self) -> (r: Option<&Target>)
        requires
            self.wf(),
        ensures
            match r {
                Some(target) => !self.finished() && *target == self.targets@[self.attempted as int],
                None => self.finished(),
            },
    {
        if self.attempted < self.targets.len() {
            Some(&self.targets[self.attempted])
        } else {
            None
        }
    }

    /// Whether the size of one more removed target still fits the account.
    pub fn fits(&self, size: u64) -> (r: bool)
        ensures
            r == (self.bytes_freed + size <= u64::MAX),
    {
        size <= u64::MAX - self.bytes_freed
    }

    /// Take down how the attempt on the next target ended, and go on to the
    /// one after it. A failure does not stop the run.
    pub fn record(&mut self, outcome: Outcome)
        requires
            old(self).wf(),
            outcome.removed && !old(self).finished() ==> old(self).bytes_freed + outcome.size
                <= u64::MAX,
        ensures
            final(self).wf(),
            *final(self) == old(self).after(outcome),
    {
        if self.attempted >= self.targets.len() {
            return ;
        }
        let directory = self.targets[self.attempted].is_directory;
        if outcome.removed {
            self.bytes_freed = self.bytes_freed + outcome.size;
            if directory {
                self.directories_removed = self.directories_removed + 1;
            } else {
                self.files_removed = self.files_removed + 1;
            }
        } else {
            if directory {
                self.directories_failed = self.directories_failed + 1;
            } else {
                self.files_failed = self.files_failed + 1;
            }
        }
        self.attempted = self.attempted + 1;
    }

    /// The counts for the final report: files and directories removed and
    /// selected, bytes freed, and failures.
    pub fn report(&self) -> (r: FinalReport)
        requires
            self.wf(),
        ensures
            r == self.counts(),
    {
        FinalReport {
            files_removed: self.files_removed,
            files_selected: self.files_selected,
            directories_removed: self.directories_removed,
            directories_selected: self.directories_selected,
            bytes_freed: self.bytes_freed,
            failures: self.files_failed + self.directories_failed,
        }
    }

    /// The closing line of the run.
    pub fn summary(&self, profile_dir: &str) -> (r: String)
        requires
            self.wf(),
        ensures
            r@ == summary_text(self.counts(), profile_dir@),
    {
        let report = self.report();
        let mut out = String::new();
        out.append("Removed ");
        push_decimal(&mut out, report.files_removed as u64);
        out.append(" of ");
        push_decimal(&mut out, report.files_selected as u64);
        out.append(" files and ");
        push_decimal(&mut out, report.directories_removed as u64);
        out.append(" of ");
        push_decimal(&mut out, report.directories_selected as u64);
        out.append(" incremental directories from ");
        out.append(quote_path(profile_dir).as_str());
        out.append(", ");
        out.append(format_size(report.bytes_freed).as_str());
        out.append(" total");
        if report.failures != 0 {
            out.append(", ");
            push_decimal(&mut out, report.failures as u64);
            out.append(" files failed to remove");
        }
        out
    }
}

/// A target more at the end leaves the count of files among the targets
/// before it as it was, and adds itself if it is a file.
proof fn lemma_files_among_prefix(before: Seq<Target>, after: Seq<Target>, n: int)
    requires
        0 <= n == before.len(),
        after.len() == n + 1,
        forall|i: int| 0 <= i < n ==> before[i] == after[i],
    ensures
        files_among(after, n + 1) == files_among(before, n) + (if after[n].is_directory {
            0int
        } else {
            1int
        }),
{
    lemma_files_among_same(before, after, n);
}

/// Targets that agree up to `n` have the same count of files up to `n`.
proof fn lemma_files_among_same(a: Seq<Target>, b: Seq<Target>, n: int)
    requires
        0 <= n <= a.len(),
        n <= b.len(),
        forall|i: int| 0 <= i < n ==> a[i] == b[i],
    ensures
        files_among(a, n) == files_among(b, n),
    decreases n,
{
    if n > 0 {
        lemma_files_among_same(a, b, n - 1);
    }
}

/// The account of a run is that of its outcomes: after a row of attempts the
/// run has gone through as many targets, has counted each failure once and
/// each other target as removed, and holds as freed the sizes of the removed
/// targets and of no others.
pub proof fn lemma_account_follows_outcomes(run: RemovalRun, outcomes: Seq<Outcome>)
    requires
        run.wf(),
        run.fresh(),
        outcomes.len() <= run.targets@.len(),
        freed_by(outcomes) <= u64::MAX,
    ensures
        ({
            let end = run.after_all(outcomes);
            &&& end.wf()
            &&& end.targets == run.targets
            &&& end.files_selected == run.files_selected
            &&& end.directories_selected == run.directories_selected
            &&& end.attempted == outcomes.len()
            &&& end.files_failed + end.directories_failed == failures_in(outcomes)
            &&& end.files_removed + end.directories_removed == outcomes.len() - failures_in(
                outcomes,
            )
            &&& end.bytes_freed == freed_by(outcomes)
        }),
    decreases outcomes.len(),
{
    if outcomes.len() > 0 {
        let front = outcomes.drop_last();
        lemma_account_follows_outcomes(run, front);
        let mid = run.after_all(front);
        assert(mid.targets@.len() == mid.targets.len());
    }
}

/// With one failure among the outcomes, and that at place `k`, one failure is
/// counted and everything measured but the size at `k` is freed.
proof fn lemma_one_failure(outcomes: Seq<Outcome>, k: int)
    requires
        0 <= k < outcomes.len(),
        !outcomes[k].removed,
        forall|i: int| 0 <= i < outcomes.len() && i != k ==> (#[trigger] outcomes[i]).removed,
    ensures
        failures_in(outcomes) == 1,
        freed_by(outcomes) == measured_by(outcomes) - outcomes[k].size,
    decreases outcomes.len(),
{
    let front = outcomes.drop_last();
    if k == outcomes.len() - 1 {
        lemma_no_failure(front);
    } else {
        lemma_one_failure(front, k);
    }
}

/// Without a failure among the outcomes none is counted, and everything
/// measured is freed.
proof fn lemma_no_failure(outcomes: Seq<Outcome>)
    requires
        forall|i: int| 0 <= i < outcomes.len() ==> (#[trigger] outcomes[i]).removed,
    ensures
        failures_in(outcomes) == 0,
        freed_by(outcomes) == measured_by(outcomes),
    decreases outcomes.len(),
{
    if outcomes.len() > 0 {
        let front = outcomes.drop_last();
        lemma_no_failure(front);
    }
}

/// A single failure among the attempts on all the targets of a run: every
/// target but one is removed, one failure is counted, and the size of the
/// target that was not removed is not among the bytes freed.
pub proof fn lemma_single_failure(run: RemovalRun, outcomes: Seq<Outcome>, k: int)
    requires
        run.wf(),
        run.fresh(),
        outcomes.len() == run.targets@.len(),
        0 <= k < outcomes.len(),
        !outcomes[k].removed,
        forall|i: int| 0 <= i < outcomes.len() && i != k ==> (#[trigger] outcomes[i]).removed,
        measured_by(outcomes) - outcomes[k].size <= u64::MAX,
    ensures
        ({
            let end = run.after_all(outcomes);
            &&& end.finished()
            &&& end.files_removed + end.directories_removed == outcomes.len() - 1
            &&& end.counts().failures == 1
            &&& end.bytes_freed == measured_by(outcomes) - outcomes[k].size
            &&& run.directories_selected == 0 ==> end.counts().files_removed
                == run.files_selected - 1
        }),
{
    lemma_one_failure(outcomes, k);
    lemma_account_follows_outcomes(run, outcomes);
}

} // verus!
