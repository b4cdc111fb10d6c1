//! Where the library's files live: the configuration directory, the cache
//! directory, and the layouts directory under the configuration. The
//! platform's default locations are read at the boundary and handed in;
//! creating missing directories happens there too.

use crate::paths::path_exists;
use vstd::prelude::*;
use vstd::string::StringExecFns;

verus! {

/// The failures of directory resolution.
#[derive(Debug)]
pub enum Error {
    /// A custom directory that does not exist.
    CustomDirNotFound(String),
    /// No custom directory was given and the platform offers no default.
    NoConfigDir,
    /// As above, for the cache directory.
    NoCacheDir,
}

/// Accumulates the optional custom locations before resolution.
#[derive(Debug)]
pub struct DirectoryManagerBuilder {
    pub custom_config_path: Option<String>,
    pub custom_cache_path: Option<String>,
}

/// The name of the directory the library claims under the platform's
/// default locations.
pub open spec fn project_dir_suffix() -> Seq<char> {
    seq!['/'] + "celeris"@
}

/// The resolved directory a default location yields.
pub open spec fn under_default(default: Seq<char>) -> Seq<char> {
    default + project_dir_suffix()
}

impl DirectoryManagerBuilder {
    pub fn new() -> (r: Self)
        ensures
            r.custom_config_path is None,
            r.custom_cache_path is None,
    {
        Self { custom_config_path: None, custom_cache_path: None }
    }

    /// Chooses a custom configuration directory, accepted exactly when the
    /// probe found the path.
    pub fn config_dir_checked(&mut self, path: String, present: bool) -> (r: Result<
        (),
        Error,
    >)
        ensures
            final(self).custom_cache_path == old(self).custom_cache_path,
            present ==> (r is Ok && final(self).custom_config_path == Some(path)),
            !present ==> (r matches Err(Error::CustomDirNotFound(p)) && p == path && final(self).custom_config_path == old(self).custom_config_path),
    {
        if present {
            self.custom_config_path = Some(path);
            Ok(())
        } else {
            Err(Error::CustomDirNotFound(path))
        }
    }

    /// Chooses a custom configuration directory, validated to exist.
    pub fn config_dir(&mut self, path: String) -> (r: Result<(), Error>)
        ensures
            final(self).custom_cache_path == old(self).custom_cache_path,
            r is Ok ==> final(self).custom_config_path == Some(path),
            r is Err ==> (r matches Err(Error::CustomDirNotFound(p)) && p == path && final(self).custom_config_path == old(self).custom_config_path),
    {
        let present = path_exists(path.as_str());
        self.config_dir_checked(path, present)
    }

    /// Chooses a custom cache directory, accepted exactly when the probe
    /// found the path.
    pub fn cache_dir_checked(&mut self, path: String, present: bool) -> (r: Result<(), Error>)
        ensures
            final(self).custom_config_path == old(self).custom_config_path,
            present ==> (r is Ok && final(self).custom_cache_path == Some(path)),
            !present ==> (r matches Err(Error::CustomDirNotFound(p)) && p == path && final(self).custom_cache_path == old(self).custom_cache_path),
    {
        if present {
            self.custom_cache_path = Some(path);
            Ok(())
        } else {
            Err(Error::CustomDirNotFound(path))
        }
    }

    /// Chooses a custom cache directory, validated to exist.
    pub fn cache_dir(&mut self, path: String) -> (r: Result<(), Error>)
        ensures
            final(self).custom_config_path == old(self).custom_config_path,
            r is Ok ==> final(self).custom_cache_path == Some(path),
            r is Err ==> (r matches Err(Error::CustomDirNotFound(p)) && p == path && final(self).custom_cache_path == old(self).custom_cache_path),
    {
        let present = path_exists(path.as_str());
        self.cache_dir_checked(path, present)
    }

    /// Resolves the three directories: a custom location wins; otherwise the
    /// platform's default gets the project's own directory under it; with
    /// neither, resolution fails. The layouts directory always sits under
    /// the configuration directory. The boundary creates what is missing.
    pub fn build(&self, default_config: Option<String>, default_cache: Option<String>) -> (r:
        Result<DirectoryManager, Error>)
        ensures
            self.custom_config_path is None && default_config is None ==> (r matches Err(e)
                && e is NoConfigDir),
            self.custom_config_path is Some || default_config is Some ==> {
                let config = if self.custom_config_path is Some {
                    self.custom_config_path->0@
                } else {
                    under_default(default_config->0@)
                };
                &&& (self.custom_cache_path is None && default_cache is None ==> (r matches
                    Err(e) && e is NoCacheDir))
                &&& (self.custom_cache_path is Some || default_cache is Some ==> (r matches
                    Ok(m) && {
                    &&& m.config_dir@ == config
                    &&& m.layouts_dir@ == config + seq!['/'] + "layouts"@
                    &&& m.cache_dir@ == (if self.custom_cache_path is Some {
                        self.custom_cache_path->0@
                    } else {
                        under_default(default_cache->0@)
                    })
                }))
            },
    {
        let config_dir: String = match &self.custom_config_path {
            Some(p) => p.clone(),
            None => {
                match default_config {
                    Some(d) => {
                        let ghost dv = d@;
                        let mut dir = d;
                        dir.append("/");
                        dir.append("celeris");
                        proof {
                            reveal_strlit("/");
                            assert("/"@ =~= seq!['/']);
                            assert(dir@ =~= under_default(dv));
                        }
                        dir
                    },
                    None => {
                        return Err(Error::NoConfigDir);
                    },
                }
            },
        };
        let cache_dir: String = match &self.custom_cache_path {
            Some(p) => p.clone(),
            None => {
                match default_cache {
                    Some(d) => {
                        let ghost dv = d@;
                        let mut dir = d;
                        dir.append("/");
                        dir.append("celeris");
                        proof {
                            reveal_strlit("/");
                            assert("/"@ =~= seq!['/']);
                            assert(dir@ =~= under_default(dv));
                        }
                        dir
                    },
                    None => {
                        return Err(Error::NoCacheDir);
                    },
                }
            },
        };
        let mut layouts_dir = config_dir.clone();
        layouts_dir.append("/");
        layouts_dir.append("layouts");
        proof {
            reveal_strlit("/");
            assert("/"@ =~= seq!['/']);
        }
        Ok(DirectoryManager { config_dir, cache_dir, layouts_dir })
    }
}

/// The resolved locations of the library's files.
#[derive(Debug)]
pub struct DirectoryManager {
    pub config_dir: String,
    pub cache_dir: String,
    pub layouts_dir: String,
}

impl DirectoryManager {
    pub fn builder() -> (r: DirectoryManagerBuilder)
        ensures
            r.custom_config_path is None,
            r.custom_cache_path is None,
    {
        DirectoryManagerBuilder::new()
    }

    pub fn config_dir(&self) -> (r: &str)
        ensures
            r@ == self.config_dir@,
    {
        self.config_dir.as_str()
    }

    pub fn cache_dir(&self) -> (r: &str)
        ensures
            r@ == self.cache_dir@,
    {
        self.cache_dir.as_str()
    }

    pub fn layouts_dir(&self) -> (r: &str)
        ensures
            r@ == self.layouts_dir@,
    {
        self.layouts_dir.as_str()
    }
}

} // verus!
