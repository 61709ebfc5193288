//! Paths of the host platform, as far as this library reads them: for
//! their text.

use vstd::prelude::*;
use std::path::PathBuf;

verus! {

/// `std::path::PathBuf`, opaque but for its text.
#[verifier::external_type_specification]
#[verifier::external_body]
pub struct ExPathBuf(PathBuf);

/// The text of a host path; none when the path is not valid Unicode.
pub uninterp spec fn host_path_text(path: &PathBuf) -> Option<Seq<char>>;

/// `Path::to_str`: trusted to give the text of the path when the path is
/// valid Unicode, and nothing otherwise.
#[verifier::external_body]
pub(crate) fn host_path_to_str<'a>(path: &'a PathBuf) -> (text: Option<&'a str>)
    ensures
        match text {
            Some(s) => host_path_text(path) == Some(s@),
            None => host_path_text(path) is None,
        },
{
    path.to_str()
}

} // verus!
