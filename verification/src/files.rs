//! A look at the file system, for the decision whether there is anything
//! to serve from a directory.

use std::path::PathBuf;
use vstd::prelude::*;

verus! {

/// `std::path::PathBuf`, carried through as an opaque value.
#[verifier::external_type_specification]
#[verifier::external_body]
pub struct ExPathBuf(PathBuf);

/// Trusted: calls `std::path::Path::exists`. The answer depends on what is
/// on disk at the moment of the call, so nothing is claimed of it.
#[verifier::external_body]
fn probe(path: &PathBuf) -> bool {
    path.exists()
}

/// Tells whether something exists at `path` right now. Two calls on the
/// same path may differ.
pub fn file_exists(path: &PathBuf) -> bool {
    probe(path)
}

} // verus!
