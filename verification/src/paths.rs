//! File paths, which the library carries and shows.

use std::path::PathBuf;
use vstd::prelude::*;

verus! {

/// The standard library's owned path.
#[verifier::external_type_specification]
#[verifier::external_body]
pub struct ExPathBuf(std::path::PathBuf);

/// `PathBuf::clone`, which the derived copies of the plan types call. Nothing is
/// claimed of the copy.
pub assume_specification[ <std::path::PathBuf as Clone>::clone ](
    path: &std::path::PathBuf,
) -> std::path::PathBuf;

/// The characters of a path, as they are shown.
pub uninterp spec fn path_text(path: PathBuf) -> Seq<char>;

/// Shows a path.
///
/// Calls `Path::display`. Claimed of it: what is shown depends on the path alone.
#[verifier::external_body]
pub(crate) fn show_path(path: &PathBuf) -> (r: String)
    ensures
        r@ == path_text(*path),
{
    format!("{}", path.display())
}

/// Makes a path of a text.
///
/// Calls `PathBuf::from`. Claimed of it: the path shows as the text it was made of.
#[verifier::external_body]
pub(crate) fn path_of(text: String) -> (r: PathBuf)
    ensures
        path_text(r) == text@,
{
    PathBuf::from(text)
}

} // verus!
