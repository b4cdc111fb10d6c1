//! The user's configuration: where to search for repositories and how the
//! layout templates behave. Loading it from disk happens at the boundary;
//! here live the record itself, its defaults, and the validation of the
//! configured search roots.

use crate::paths::{path_exists, path_is_dir};
use vstd::prelude::*;

verus! {

/// The failures of configuration validation.
#[derive(Debug)]
pub enum Error {
    /// A configured search root that does not exist.
    RootNotFound(String),
    /// A configured search root that is not a directory.
    RootNotADirectory(String),
}

/// One directory tree to search for repositories, with optional overrides of
/// the global depth and exclusions.
#[derive(Debug)]
pub struct SearchRoot {
    pub path: String,
    pub depth: Option<usize>,
    pub excludes: Option<Vec<String>>,
}

/// What kind of path a configuration entry names.
#[derive(Debug, Clone, Copy)]
pub enum PathType {
    SearchRoot,
    ExcludeDirectory,
}

/// The configuration record.
#[derive(Debug)]
pub struct Config {
    pub editor: Option<String>,
    pub depth: usize,
    pub search_subdirs: bool,
    pub search_roots: Vec<SearchRoot>,
    pub excludes: Vec<String>,
    pub disable_template: bool,
}

impl Default for Config {
    fn default() -> (r: Self)
        ensures
            r.editor is None,
            r.depth == 10,
            !r.search_subdirs,
            r.search_roots@.len() == 0,
            r.excludes@.len() == 0,
            !r.disable_template,
    {
        Config {
            editor: None,
            depth: 10,
            search_subdirs: false,
            search_roots: Vec::new(),
            excludes: Vec::new(),
            disable_template: false,
        }
    }
}

impl Config {
    /// Checks every configured search root against the filesystem: each must
    /// exist and be a directory. A reported failure always names one of the
    /// configured roots.
    pub fn validate_config(&self) -> (r: Result<(), Error>)
        ensures
            r matches Err(Error::RootNotFound(p)) ==> exists|i: int|
                0 <= i < self.search_roots@.len() && (#[trigger] self.search_roots@[i]).path@
                    == p@,
            r matches Err(Error::RootNotADirectory(p)) ==> exists|i: int|
                0 <= i < self.search_roots@.len() && (#[trigger] self.search_roots@[i]).path@
                    == p@,
    {
        let n = self.search_roots.len();
        let mut i: usize = 0;
        while i < n
            invariant
                0 <= i <= n,
                n == self.search_roots@.len(),
            decreases n - i,
        {
            let path = &self.search_roots[i].path;
            if !path_exists(path.as_str()) {
                return Err(Error::RootNotFound(path.clone()));
            }
            if !path_is_dir(path.as_str()) {
                return Err(Error::RootNotADirectory(path.clone()));
            }
            i = i + 1;
        }
        Ok(())
    }
}

} // verus!
