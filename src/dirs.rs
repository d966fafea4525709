//! Where the built artifacts are cached.
use vstd::prelude::*;

verus! {

/// Why the cache directory is unknown.
#[derive(PartialEq, Eq, Structural, Clone, Copy, Debug)]
pub enum DirError {
    /// The user's base directory could not be found on this system.
    FailedToFindBaseDirectory,
}

/// Relies on `directories::ProjectDirs::from` and `ProjectDirs::cache_dir`:
/// the user's cache directory for the project, when the system has a home
/// directory. It depends on the environment, so nothing is stated of it.
#[verifier::external_body]
fn project_cache_dir(qualifier: &str, organization: &str, application: &str) -> (r: Option<String>) {
    match directories::ProjectDirs::from(qualifier, organization, application) {
        Some(dirs) => Some(dirs.cache_dir().to_string_lossy().into_owned()),
        None => None,
    }
}

/// The directory where the built artifacts are cached.
pub fn cache() -> (r: Result<String, DirError>)
    ensures
        r is Err ==> r == Err::<String, DirError>(DirError::FailedToFindBaseDirectory),
{
    match project_cache_dir("network", "Casper", "Utilities for Network Testing") {
        Some(dir) => Ok(dir),
        None => Err(DirError::FailedToFindBaseDirectory),
    }
}

} // verus!
