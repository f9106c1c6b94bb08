//! A project directory.

use vstd::prelude::*;
use crate::paths::{file_name, final_component};

verus! {

/// A project directory, identified by the full path of its root.
#[derive(Debug, PartialEq, Eq)]
pub struct Project {
    /// The full path of the project root directory, the directory's own name included.
    pub inner: String,
}

impl View for Project {
    type V = Seq<char>;

    /// A project is its path.
    open spec fn view(&self) -> Seq<char> {
        self.inner@
    }
}

impl DeepView for Project {
    type V = Seq<char>;

    open spec fn deep_view(&self) -> Seq<char> {
        self.inner@
    }
}

impl Clone for Project {
    fn clone(&self) -> (copy: Project)
        ensures
            copy@ == self@,
    {
        Project { inner: self.inner.clone() }
    }
}

impl Project {
    /// The project whose root directory is `path`.
    pub fn new(path: String) -> (project: Project)
        ensures
            project@ == path@,
    {
        Project { inner: path }
    }

    /// The project's name: the final component of its path. A path without one
    /// (the root of the file system, a path that ends in `..`) names no project.
    pub fn name(&self) -> (name: Option<&str>)
        ensures
            match name {
                Some(n) => final_component(self@) == Some(n@),
                None => final_component(self@) is None,
            },
    {
        file_name(self.inner.as_str())
    }

    /// The full path of the project's root directory.
    pub fn full_path(&self) -> (path: &str)
        ensures
            path@ == self@,
    {
        self.inner.as_str()
    }
}

} // verus!
