//! Locations on disk, as the installer names them.

use crate::text::texts;
use std::path::PathBuf;
use vstd::prelude::*;
use vstd::string::StringExecFns;

verus! {

/// `std::path::PathBuf`, a path as the operating system takes it. Nothing
/// is known of what is inside one.
#[verifier::external_type_specification]
#[verifier::external_body]
pub struct ExPathBuf(PathBuf);

/// `Clone::clone` of `std::path::PathBuf` returns a path equal to the one it
/// was called on.
pub assume_specification[ <PathBuf as Clone>::clone ](path: &PathBuf) -> (res: PathBuf)
    ensures
        res == *path,
;

/// A location below the user's home directory: the home directory, and the
/// names of the directories and of the file that lead from it to the
/// location, outermost first.
#[derive(Debug, PartialEq, Eq)]
pub struct MayaPath {
    pub home: PathBuf,
    pub parts: Vec<String>,
}

/// A location as a mathematical value.
pub struct MayaPathView {
    pub home: PathBuf,
    pub parts: Seq<Seq<char>>,
}

impl View for MayaPath {
    type V = MayaPathView;

    open spec fn view(&self) -> MayaPathView {
        MayaPathView { home: self.home, parts: texts(self.parts@) }
    }
}

impl MayaPathView {
    /// The location of the entry `name` in the directory at this location.
    pub open spec fn child(self, name: Seq<char>) -> MayaPathView {
        MayaPathView { home: self.home, parts: self.parts.push(name) }
    }
}

impl MayaPath {
    /// A copy of this location.
    pub fn duplicate(&self) -> (copy: MayaPath)
        ensures
            copy@ == self@,
    {
        let mut parts: Vec<String> = Vec::new();
        let mut i: usize = 0;
        while i < self.parts.len()
            invariant
                0 <= i <= self.parts.len(),
                parts.len() == i,
                forall|k: int| 0 <= k < i ==> (#[trigger] parts[k])@ == self.parts[k]@,
            decreases self.parts.len() - i,
        {
            parts.push(self.parts[i].clone());
            i = i + 1;
        }
        let copy = MayaPath { home: self.home.clone(), parts };
        assert(copy@.parts =~= self@.parts);
        copy
    }

    /// The location of the entry `name` in the directory at this location.
    pub fn join(&self, name: &str) -> (child: MayaPath)
        ensures
            child@ == self@.child(name@),
    {
        let mut child = self.duplicate();
        child.parts.push(String::from_str(name));
        assert(child@.parts =~= self@.parts.push(name@));
        child
    }
}

} // verus!
