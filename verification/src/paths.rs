//! Paths, as far as the library works on them: paths are kept as strings, and
//! what is to be known of one is asked of the path types that the build tool
//! itself uses.

use vstd::prelude::*;
use crate::utils::{profile_dir_name, profile_to_dir};

verus! {

/// The path of `child` below `base`: what `Utf8Path::join` of camino gives for
/// the two, on the platform that the library was built for.
pub uninterp spec fn joined_path(base: Seq<char>, child: Seq<char>) -> Seq<char>;

/// The path of `child` below `base`.
///
/// Trusted: this is `camino::Utf8Path::join`, on a path made of `base` by
/// `Utf8Path::new`, and `Utf8PathBuf::into_string` of what it gives. The
/// contract only names the result, which depends on the two strings alone.
#[verifier::external_body]
pub(crate) fn join_path(base: &str, child: &str) -> (r: String)
    ensures
        r@ == joined_path(base@, child@),
{
    cargo_metadata::camino::Utf8Path::new(base).join(child).into_string()
}

/// The stem of a path's last component: the file name without its extension.
/// What `std::path::Path::file_stem` gives for the path, on the platform that
/// the library was built for.
pub uninterp spec fn path_file_stem(path: Seq<char>) -> Option<Seq<char>>;

/// The stem of a path's last component.
///
/// Trusted: this is `std::path::Path::file_stem`, which vstd does not specify.
/// The contract only names its result; a path made of a string has a stem
/// that is a string, so nothing is lost on the way back.
#[verifier::external_body]
pub(crate) fn file_stem(path: &str) -> (r: Option<String>)
    ensures
        r.deep_view() == path_file_stem(path@),
{
    std::path::Path::new(path).file_stem().map(|stem| stem.to_string_lossy().into_owned())
}

/// The extension of a path's last component. What
/// `std::path::Path::extension` gives for the path, on the platform that the
/// library was built for.
pub uninterp spec fn path_extension(path: Seq<char>) -> Option<Seq<char>>;

/// The extension of a path's last component.
///
/// Trusted: this is `std::path::Path::extension`, which vstd does not specify.
/// The contract only names its result; a path made of a string has an
/// extension that is a string, so nothing is lost on the way back.
#[verifier::external_body]
pub(crate) fn extension(path: &str) -> (r: Option<String>)
    ensures
        r.deep_view() == path_extension(path@),
{
    std::path::Path::new(path).extension().map(|ext| ext.to_string_lossy().into_owned())
}

/// A path as it is shown in messages, quoted and escaped: what the `Debug`
/// form of a `camino::Utf8Path` of that text gives.
pub uninterp spec fn quoted_path(path: Seq<char>) -> Seq<char>;

/// A path as it is shown in messages, quoted and escaped.
///
/// Trusted: this is `camino::Utf8Path::new` and the `Debug` form of its
/// result. The contract only names the text, which depends on the path alone.
#[verifier::external_body]
pub(crate) fn quote_path(path: &str) -> (r: String)
    ensures
        r@ == quoted_path(path@),
{
    format!("{:?}", cargo_metadata::camino::Utf8Path::new(path))
}

/// The directory that holds the outputs of a profile, below the target
/// directory.
pub fn profile_path(target_dir: &str, profile: &str) -> (r: String)
    ensures
        r@ == joined_path(target_dir@, profile_dir_name(profile@)),
{
    join_path(target_dir, profile_to_dir(profile))
}

} // verus!
