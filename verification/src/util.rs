//! Paths removed when a run is over.

use vstd::prelude::*;

verus! {

/// A file that is deleted when the run is over.
///
/// Deleting it is the caller's business (it owns the file system); a
/// missing file is not an error.
#[derive(Debug)]
pub struct CleanupPath(String);

impl CleanupPath {
    pub fn new(path: String) -> (r: Self)
        ensures
            r.path_text() == path@,
    {
        Self(path)
    }

    /// The path, as text.
    pub closed spec fn path_text(&self) -> Seq<char> {
        self.0@
    }

    pub fn as_path(&self) -> (r: &str)
        ensures
            r@ == self.path_text(),
    {
        self.0.as_str()
    }
}

/// A directory that is deleted, with everything in it, when the run is
/// over.
///
/// Deleting it is the caller's business (it owns the file system); a
/// missing directory is not an error.
#[derive(Debug)]
pub struct CleanupDir(String);

impl CleanupDir {
    pub fn new(path: String) -> (r: Self)
        ensures
            r.path_text() == path@,
    {
        Self(path)
    }

    /// The path, as text.
    pub closed spec fn path_text(&self) -> Seq<char> {
        self.0@
    }

    pub fn as_path(&self) -> (r: &str)
        ensures
            r@ == self.path_text(),
    {
        self.0.as_str()
    }
}

} // verus!
