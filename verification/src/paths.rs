//! File paths, which the library carries without looking inside.

use vstd::prelude::*;

verus! {

/// `std::path::PathBuf`, a file path.
#[verifier::external_type_specification]
#[verifier::external_body]
pub struct ExPathBuf(std::path::PathBuf);

/// `PathBuf::clone` gives a copy of the path.
pub assume_specification[ <std::path::PathBuf as Clone>::clone ](path: &std::path::PathBuf) -> (result:
    std::path::PathBuf)
    ensures
        result == *path,
;

/// A copy of an optional path.
pub fn copy_path(path: &Option<std::path::PathBuf>) -> (result: Option<std::path::PathBuf>)
    ensures
        result == *path,
{
    match path {
        Some(path) => Some(path.clone()),
        None => None,
    }
}

} // verus!
