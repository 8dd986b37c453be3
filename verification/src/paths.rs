//! Judging a directory argument from what the file system says of it.

use vstd::prelude::*;

verus! {

/// What is said of a path that names nothing.
pub const MISSING: &'static str = "Directory does not exist";

/// What is said of a path that names something other than a directory.
pub const NOT_A_DIRECTORY: &'static str = "Not a directory";

/// Accepts `path` as a directory argument where it exists and is a
/// directory, as the caller found by asking the file system.
pub fn valid_dir(path: &str, exists: bool, is_dir: bool) -> (r: Result<String, String>)
    ensures
        match r {
            Ok(accepted) => exists && is_dir && accepted@ == path@,
            Err(message) => if !exists {
                message@ == MISSING@
            } else {
                !is_dir && message@ == NOT_A_DIRECTORY@
            },
        },
{
    if !exists {
        Err(MISSING.to_owned())
    } else if !is_dir {
        Err(NOT_A_DIRECTORY.to_owned())
    } else {
        Ok(path.to_owned())
    }
}

} // verus!
