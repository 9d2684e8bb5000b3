//! Configuration values and their sanity checks.
//!
//! Loading the configuration from disk and the environment is the
//! surrounding application's business; this module holds the loaded plain
//! values and the checks on them.  Whether a configured directory exists
//! is a filesystem fact, so the caller observes it and hands it in.

use vstd::prelude::*;

use crate::rekordbox::paths::is_absolute_path;
use crate::rekordbox::paths::spec_is_absolute;

verus! {

/// The loaded configuration values.
#[derive(Clone, Debug, PartialEq, Eq)]
pub struct Config {
    /// The exact location of the mixxxdb.sqlite file.
    pub mixxx_db: String,
    /// The directory to which the library will be exported.
    pub target_directory: String,
    /// The single directory under which all music files live on the
    /// source system, e.g. `/home/your_user/Mixxx`.
    pub source_library_root: String,
    /// The path of the library root on the target system, e.g.
    /// `C:/Users/your_user/Music/Mixxx`.
    pub target_library_root: String,
    /// Whether track paths are rebased from the source root onto the
    /// target root — set when source and target run under different
    /// filesystem conventions.
    pub rebase_paths: bool,
}

/// How a leading tilde expands: `~` alone becomes the home directory, a
/// leading `~/` is replaced by it, and anything else is left unchanged.
pub open spec fn spec_expand_home(path: Seq<char>, home: Seq<char>) -> Seq<char> {
    if path == "~"@ {
        home
    } else if path.len() >= 2 && path[0] == '~' && path[1] == '/' {
        home + path.skip(1)
    } else {
        path
    }
}

/// Little helper which expands a leading `~` to the given home directory.
pub fn expand_home(old_path: &str, home: &str) -> (r: String)
    ensures
        r@ == spec_expand_home(old_path@, home@),
{
    proof {
        reveal_strlit("~");
    }
    let n = old_path.unicode_len();
    if n >= 1 && old_path.get_char(0) == '~' {
        if n == 1 {
            proof {
                assert(old_path@ =~= "~"@);
            }
            return String::from_str(home);
        }
        if old_path.get_char(1) == '/' {
            let mut out = String::from_str(home);
            let rest = old_path.substring_char(1, n);
            out.append(rest);
            proof {
                assert(old_path@ != "~"@);
                assert(out@ =~= home@ + old_path@.skip(1));
            }
            return out;
        }
    }
    proof {
        assert(old_path@ != "~"@);
    }
    String::from_str(old_path)
}

/// Why a configuration was rejected.
#[derive(Clone, Copy, Debug, PartialEq, Eq, Structural)]
pub enum ConfigError {
    /// The export directory does not exist.
    TargetDirectoryMissing,
    /// The target library root does not exist.
    TargetLibraryRootMissing,
    /// The target library root is not an absolute path.
    TargetLibraryRootNotAbsolute,
}

/// What [`Config::validate`] decides, in the order the checks run.
pub open spec fn spec_validate(
    c: Config,
    target_directory_exists: bool,
    target_library_root_exists: bool,
) -> Result<(), ConfigError> {
    if !target_directory_exists {
        Err(ConfigError::TargetDirectoryMissing)
    } else if !target_library_root_exists {
        Err(ConfigError::TargetLibraryRootMissing)
    } else if !spec_is_absolute(c.target_library_root@) {
        Err(ConfigError::TargetLibraryRootNotAbsolute)
    } else {
        Ok(())
    }
}

impl Config {
    /// The export directory with a leading `~` expanded to the home
    /// directory the caller supplies.
    pub fn target_directory(&self, home: &str) -> (r: String)
        ensures
            r@ == spec_expand_home(self.target_directory@, home@),
    {
        expand_home(self.target_directory.as_str(), home)
    }

    /// Run some configuration sanity checks.  Whether the two configured
    /// directories exist on disk is observed by the caller and handed in.
    pub fn validate(&self, target_directory_exists: bool, target_library_root_exists: bool) -> (r:
        Result<(), ConfigError>)
        ensures
            r == spec_validate(*self, target_directory_exists, target_library_root_exists),
    {
        if !target_directory_exists {
            return Err(ConfigError::TargetDirectoryMissing);
        }
        if !target_library_root_exists {
            return Err(ConfigError::TargetLibraryRootMissing);
        }
        if !is_absolute_path(self.target_library_root.as_str()) {
            return Err(ConfigError::TargetLibraryRootNotAbsolute);
        }
        Ok(())
    }
}

} // verus!
