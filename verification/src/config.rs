//! Where the saves live, and the switches that are fixed when the crate is built.

use vstd::prelude::*;

verus! {

/// `std::path::PathBuf`, a path of the file system. The crate carries such
/// values and never looks inside them.
#[verifier::external_type_specification]
#[verifier::external_body]
pub struct ExPathBuf(std::path::PathBuf);

/// `PathBuf::clone` gives a path that is equal to the one it was made of.
pub assume_specification[ <std::path::PathBuf as Clone>::clone ](
    path: &std::path::PathBuf,
) -> (copy: std::path::PathBuf)
    ensures
        copy == *path,
;

/// Whether debug messages are written.
pub const DEBUG: bool = false;

/// The locations that the engine works on.
#[derive(Debug)]
pub struct Config {
    /// Name of the sidecar file that caches a directory's statistics.
    pub cache_file_name: String,
    /// Directory that holds one subdirectory per save.
    pub saves_dir_path: std::path::PathBuf,
    /// Directory of the live save that the game reads and writes.
    pub current_save_path: std::path::PathBuf,
}

} // verus!
