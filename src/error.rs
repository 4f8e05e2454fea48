//! What can go wrong in the cache.

use vstd::prelude::*;

use crate::codec::NpmPackageNv;

verus! {

/// Why populating a folder failed.
pub enum PopulateFailure {
    /// The folder could not be created.
    CreateFolder { message: String },
    /// The sync-lock file could not be created: another writer may hold it.
    SyncLockConflict { message: String },
    /// Extracting or linking the contents failed.
    Population { message: String },
}

pub enum NpmCacheError {
    /// No package folder holds this path.
    PackageNotFoundForPath { path: Vec<String> },
    /// Only the cache may be used, and the package is not in it.
    NotCached { package: NpmPackageNv },
    /// The registry has no tarball at the package's URL.
    TarballNotFound { package: NpmPackageNv, tarball_url: String },
    /// Populating the folder failed and the folder was removed.
    SetupFailed { package: NpmPackageNv, failure: PopulateFailure },
    /// Populating the folder failed and removing it failed too: the folder
    /// must be deleted by hand.
    CorruptCleanup { package: NpmPackageNv, failure: PopulateFailure, remove_error: String, folder: Vec<String> },
}

} // verus!
