//! The live set: the identifiers of the artifacts that the current build plan
//! still needs.

use vstd::prelude::*;
use crate::error::GcError;
use crate::library::{Key, Library};
use crate::paths::{file_stem, path_file_stem};
use crate::utils::{extract_fingerprint, parse_identifier};

verus! {

/// One record of the build plan.
pub struct OutputItem {
    /// The output files that the record names, if it names any.
    pub filenames: Option<Vec<String>>,
}

/// A set of identifiers: package name and hash, the name as file names spell
/// it.
pub struct Fingerprints {
    table: Library<()>,
}

impl View for Fingerprints {
    type V = Set<Key>;

    /// The identifiers of the set.
    closed spec fn view(&self) -> Set<Key> {
        self.table@.dom()
    }
}

impl Fingerprints {
    /// No identifier stands twice in the set.
    pub closed spec fn wf(self) -> bool {
        self.table.wf()
    }

    /// The empty set.
    pub fn new() -> (r: Self)
        ensures
            r.wf(),
            r@ == Set::<Key>::empty(),
    {
        let r = Fingerprints { table: Library::new() };
        r
    }

    /// Add an identifier to the set.
    pub fn insert(&mut self, name: String, hash: String)
        requires
            old(self).wf(),
        ensures
            final(self).wf(),
            final(self)@ == old(self)@.insert((name@, hash@)),
    {
        self.table.insert(name, hash, ());
    }

    /// Whether the set holds the identifier.
    pub fn contains(&self, name: &str, hash: &str) -> (r: bool)
        requires
            self.wf(),
        ensures
            r == self@.contains((name@, hash@)),
    {
        self.table.find(name, hash).is_some()
    }

    /// The number of identifiers in the set.
    pub fn len(&self) -> (n: usize)
        requires
            self.wf(),
        ensures
            n == self@.len(),
    {
        self.table.len()
    }

    /// Whether the set holds nothing.
    pub fn is_empty(&self) -> (r: bool)
        requires
            self.wf(),
        ensures
            r == (self@ == Set::<Key>::empty()),
    {
        proof {
            self.table.lemma_keys();
            if self@.len() == 0 {
                self@.lemma_len0_is_empty();
            }
        }
        self.table.len() == 0
    }

    /// Add the identifier that a file stem carries, if it carries one.
    pub fn insert_stem(&mut self, stem: &str)
        requires
            old(self).wf(),
        ensures
            final(self).wf(),
            final(self)@ == (match parse_identifier(stem@) {
                Some(key) => old(self)@.insert(key),
                None => old(self)@,
            }),
    {
        match extract_fingerprint(stem) {
            Some((name, hash)) => {
                self.insert(name, hash);
            },
            None => {},
        }
    }
}

/// The identifier that an output path stands for: that of its file stem.
pub open spec fn live_identifier(path: Seq<char>) -> Option<Key> {
    match path_file_stem(path) {
        Some(stem) => parse_identifier(stem),
        None => None,
    }
}

/// The identifiers that a list of output paths stands for.
pub open spec fn live_among(paths: Seq<String>) -> Set<Key> {
    Set::new(
        |key: Key|
            exists|j: int|
                0 <= j < paths.len() && live_identifier((#[trigger] paths[j])@) == Some(key),
    )
}

/// The identifiers that a record of the build plan stands for. A record that
/// names no output files stands for none.
pub open spec fn live_in(item: OutputItem) -> Set<Key> {
    match item.filenames {
        Some(paths) => live_among(paths@),
        None => Set::empty(),
    }
}

/// The live set of a build plan: the identifiers that its records stand for.
pub open spec fn live_set(items: Seq<OutputItem>) -> Set<Key> {
    Set::new(
        |key: Key| exists|i: int| 0 <= i < items.len() && live_in(#[trigger] items[i]).contains(key),
    )
}

/// A build plan in which no output path stands for an identifier has an empty
/// live set.
pub proof fn lemma_plan_without_identifiers(items: Seq<OutputItem>)
    requires
        forall|i: int, j: int|
            0 <= i < items.len() && items[i].filenames is Some && 0 <= j
                < items[i].filenames->0@.len() ==> live_identifier(
                (#[trigger] items[i].filenames->0@[j])@,
            ) is None,
    ensures
        live_set(items) == Set::<Key>::empty(),
{
}

/// A build plan with an output path that stands for an identifier has that
/// identifier in its live set.
pub proof fn lemma_plan_with_identifier(items: Seq<OutputItem>, i: int, j: int)
    requires
        0 <= i < items.len(),
        items[i].filenames is Some,
        0 <= j < items[i].filenames->0@.len(),
        live_identifier(items[i].filenames->0@[j]@) is Some,
    ensures
        live_set(items).contains(live_identifier(items[i].filenames->0@[j]@)->0),
        live_set(items) != Set::<Key>::empty(),
{
    let paths = items[i].filenames->0@;
    let key = live_identifier(paths[j]@)->0;
    assert(live_in(items[i]).contains(key));
}

/// What a build plan says of the artifacts in use.
pub struct OutputCollection {
    /// The live set.
    pub deps_fingerprints: Fingerprints,
}

impl OutputCollection {
    /// Add the identifiers that a list of output paths stands for.
    fn add_paths(set: &mut Fingerprints, paths: &Vec<String>)
        requires
            old(set).wf(),
        ensures
            final(set).wf(),
            final(set)@ == old(set)@ + live_among(paths@),
    {
        let n = paths.len();
        let mut j: usize = 0;
        while j < n
            invariant
                j <= n,
                n == paths@.len(),
                set.wf(),
                set@ == old(set)@ + live_among(paths@.take(j as int)),
            decreases n - j,
        {
            let ghost short = paths@.take(j as int);
            let ghost long = paths@.take(j + 1);
            match file_stem(paths[j].as_str()) {
                Some(stem) => {
                    set.insert_stem(stem.as_str());
                },
                None => {},
            }
            proof {
                let added = live_identifier(paths@[j as int]@);
                assert forall|key: Key| live_among(long).contains(key) <==> (live_among(
                    short,
                ).contains(key) || added == Some(key)) by {
                    if added == Some(key) {
                        assert(long[j as int] == paths@[j as int]);
                    }
                }
            }
            j += 1;
        }
        assert(paths@.take(n as int) =~= paths@);
    }

    /// Gather the live set of a build plan. A plan that yields no identifier
    /// at all is refused: against an empty live set every artifact would count
    /// as outdated.
    pub fn from_records(items: &Vec<OutputItem>) -> (r: Result<Self, GcError>)
        ensures
            match r {
                Ok(collection) => {
                    &&& collection.deps_fingerprints.wf()
                    &&& collection.deps_fingerprints@ == live_set(items@)
                    &&& live_set(items@) != Set::<Key>::empty()
                },
                Err(e) => e is EmptyLiveSet && live_set(items@) == Set::<Key>::empty(),
            },
    {
        let mut set = Fingerprints::new();
        let n = items.len();
        let mut i: usize = 0;
        while i < n
            invariant
                i <= n,
                n == items@.len(),
                set.wf(),
                set@ == live_set(items@.take(i as int)),
            decreases n - i,
        {
            let ghost short = items@.take(i as int);
            let ghost long = items@.take(i + 1);
            match &items[i].filenames {
                Some(paths) => {
                    Self::add_paths(&mut set, paths);
                },
                None => {},
            }
            proof {
                let added = live_in(items@[i as int]);
                assert forall|key: Key| live_set(long).contains(key) <==> (live_set(
                    short,
                ).contains(key) || added.contains(key)) by {
                    if added.contains(key) {
                        assert(long[i as int] == items@[i as int]);
                    }
                }
            }
            i += 1;
        }
        assert(items@.take(n as int) =~= items@);
        if set.is_empty() {
            Err(GcError::EmptyLiveSet)
        } else {
            Ok(OutputCollection { deps_fingerprints: set })
        }
    }
}

/// The live set that a build gives. A failed build gives none, whatever it
/// printed of a plan; neither does a plan without any identifier.
pub fn get_fingerprints(build_succeeded: bool, diagnostics: String, items: &Vec<OutputItem>) -> (r:
    Result<Fingerprints, GcError>)
    ensures
        match r {
            Ok(live) => {
                &&& build_succeeded
                &&& live.wf()
                &&& live@ == live_set(items@)
                &&& live_set(items@) != Set::<Key>::empty()
            },
            Err(GcError::BuildFailed(text)) => !build_succeeded && text == diagnostics,
            Err(GcError::EmptyLiveSet) => build_succeeded && live_set(items@) == Set::<
                Key,
            >::empty(),
            Err(_) => false,
        },
{
    if !build_succeeded {
        return Err(GcError::BuildFailed(diagnostics));
    }
    match OutputCollection::from_records(items) {
        Ok(collection) => Ok(collection.deps_fingerprints),
        Err(e) => Err(e),
    }
}

} // verus!
