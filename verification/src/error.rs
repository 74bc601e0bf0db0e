//! What makes a run fail before anything is removed.

use vstd::prelude::*;
use vstd::string::StringExecFns;

verus! {

/// Why a run cannot go on.
#[derive(Debug, Clone)]
pub enum GcError {
    /// The build plan names no output whose file name carries an identifier.
    /// Every artifact would count as outdated, so nothing is removed.
    EmptyLiveSet,
    /// An entry of the deps directory has no file stem.
    MissingFileStem(String),
    /// The build that was to tell the artifacts in use failed, with the
    /// diagnostics it printed.
    BuildFailed(String),
}

impl GcError {
    /// The text of the error, for the user.
    pub open spec fn text(self) -> Seq<char> {
        match self {
            GcError::EmptyLiveSet => "no valid file is found, you can just run `cargo clean`"@,
            GcError::MissingFileStem(path) => "cannot get file stem of "@ + path@,
            GcError::BuildFailed(diagnostics) => "cargo build failed: "@ + diagnostics@,
        }
    }

    /// The text of the error, for the user.
    pub fn message(&self) -> (r: String)
        ensures
            r@ == self.text(),
    {
        match self {
            GcError::EmptyLiveSet => {
                "no valid file is found, you can just run `cargo clean`".to_owned()
            },
            GcError::MissingFileStem(path) => {
                let mut out = "cannot get file stem of ".to_owned();
                out.append(path.as_str());
                out
            },
            GcError::BuildFailed(diagnostics) => {
                let mut out = "cargo build failed: ".to_owned();
                out.append(diagnostics.as_str());
                out
            },
        }
    }
}

} // verus!
