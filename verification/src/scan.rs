//! The freshness scan, as far as the index is concerned: what the build
//! system found of each unit is taken down in the index.
//!
//! Whether a unit is fresh is for the build system to say. The scan only
//! records its findings.

use vstd::prelude::*;
use crate::beatrice::{Beatrice, FingerprintInfo, FreshnessModel, UnitFreshness};
use crate::config::StaticScanConfig;
use crate::library::Key;
use crate::utils::normalized;

verus! {

/// What the build system found of one unit.
pub struct DependencyFreshness {
    /// The name of the unit's package.
    pub package_name: String,
    pub is_fresh: bool,
    /// Why the unit is dirty, where it is and a reason was given.
    pub dirty_reason: Option<String>,
    pub current_fingerprint_hash: String,
    pub fingerprint_path: String,
}

/// How many units a scan found fresh and dirty.
#[derive(Debug, Clone, Copy, PartialEq, Eq, Structural)]
pub struct ScanCounts {
    pub fresh_count: usize,
    pub dirty_count: usize,
}

/// How many of the units are fresh.
pub open spec fn fresh_among(units: Seq<DependencyFreshness>) -> int
    decreases units.len(),
{
    if units.len() == 0 {
        0
    } else {
        fresh_among(units.drop_last()) + (if units.last().is_fresh {
            1int
        } else {
            0int
        })
    }
}

/// The freshness on record after the findings on the given units were taken
/// down, one after the other. A finding on a unit of which the index holds no
/// fingerprint leaves no trace.
pub open spec fn annotated(
    fingerprints: Map<Key, FreshnessModel>,
    units: Seq<DependencyFreshness>,
) -> Map<Key, FreshnessModel>
    decreases units.len(),
{
    if units.len() == 0 {
        fingerprints
    } else {
        let before = annotated(fingerprints, units.drop_last());
        let unit = units.last();
        if before.contains_key(unit.key()) {
            before.insert(unit.key(), unit.freshness())
        } else {
            before
        }
    }
}

impl DependencyFreshness {
    /// The key of the unit's fingerprint in the index.
    pub open spec fn key(self) -> Key {
        (normalized(self.package_name@), self.current_fingerprint_hash@)
    }

    /// The freshness to record of the unit. A dirty unit without a reason is
    /// recorded with an unknown one.
    pub open spec fn freshness(self) -> FreshnessModel {
        if self.is_fresh {
            FreshnessModel::Fresh
        } else {
            match self.dirty_reason {
                Some(reason) => FreshnessModel::Dirty(reason@),
                None => FreshnessModel::Dirty("Unknown reason"@),
            }
        }
    }

    /// What the build system found of a unit: the unit is fresh exactly if no
    /// reason speaks against it.
    pub fn new(
        package_name: String,
        dirty_reason: Option<String>,
        current_fingerprint_hash: String,
        fingerprint_path: String,
    ) -> (r: Self)
        ensures
            r.package_name == package_name,
            r.is_fresh == (dirty_reason is None),
            r.dirty_reason == dirty_reason,
            r.current_fingerprint_hash == current_fingerprint_hash,
            r.fingerprint_path == fingerprint_path,
    {
        let is_fresh = dirty_reason.is_none();
        DependencyFreshness {
            package_name,
            is_fresh,
            dirty_reason,
            current_fingerprint_hash,
            fingerprint_path,
        }
    }

    /// The freshness to record of the unit.
    pub fn unit_freshness(&self) -> (r: UnitFreshness)
        ensures
            r@ == self.freshness(),
    {
        if self.is_fresh {
            UnitFreshness::Fresh
        } else {
            match &self.dirty_reason {
                Some(reason) => UnitFreshness::Dirty(reason.clone()),
                None => UnitFreshness::Dirty("Unknown reason".to_owned()),
            }
        }
    }
}

/// The scan of a workspace for the freshness of its units.
pub struct Scanner {
    pub config: StaticScanConfig,
}

impl Scanner {
    /// A scan with the given settings.
    pub fn try_new(config: StaticScanConfig) -> (r: Self)
        ensures
            r.config == config,
    {
        Scanner { config }
    }

    /// Take down in the index what the build system found of the units, and
    /// count the fresh and the dirty among them.
    pub fn scan(&self, betty: &mut Beatrice, units: &Vec<DependencyFreshness>) -> (r: ScanCounts)
        requires
            old(betty).wf(),
        ensures
            final(betty).wf(),
            final(betty).profile_dir == old(betty).profile_dir,
            final(betty).deps_library == old(betty).deps_library,
            final(betty).freshness_map() == annotated(old(betty).freshness_map(), units@),
            r.fresh_count == fresh_among(units@),
            r.fresh_count + r.dirty_count == units@.len(),
    {
        let mut counts = ScanCounts { fresh_count: 0, dirty_count: 0 };
        let n = units.len();
        let mut i: usize = 0;
        while i < n
            invariant
                i <= n,
                n == units@.len(),
                betty.wf(),
                betty.profile_dir == old(betty).profile_dir,
                betty.deps_library == old(betty).deps_library,
                betty.freshness_map() == annotated(
                    old(betty).freshness_map(),
                    units@.take(i as int),
                ),
                counts.fresh_count == fresh_among(units@.take(i as int)),
                counts.fresh_count + counts.dirty_count == i,
            decreases n - i,
        {
            let unit = &units[i];
            proof {
                let next = units@.take(i + 1);
                assert(next.drop_last() =~= units@.take(i as int));
            }
            let freshness = unit.unit_freshness();
            betty.update_fingerprint_freshness(
                unit.package_name.as_str(),
                unit.current_fingerprint_hash.as_str(),
                freshness,
            );
            if unit.is_fresh {
                counts.fresh_count += 1;
            } else {
                counts.dirty_count += 1;
            }
            i += 1;
        }
        assert(units@.take(n as int) =~= units@);
        counts
    }
}

} // verus!
