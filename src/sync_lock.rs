//! Populating a package folder so that no reader ever takes a half-filled
//! folder for a valid one.
//!
//! The folder is created, then a sync-lock file inside it is created with
//! create-only-if-absent semantics, then the folder is filled, then the
//! sync-lock file is removed. A folder that holds the sync-lock file is never
//! valid. On any failure the folder is removed again. The caller performs
//! each step that `step` names and reports its outcome to `advance`.

use vstd::prelude::*;

use crate::codec::NpmPackageNv;
use crate::error::{NpmCacheError, PopulateFailure};

verus! {

/// The name of the sync-lock file inside a folder being populated.
pub const SYNC_LOCK_FILE_NAME: &'static str = ".deno_sync_lock";

/// The step that the caller performs next.
#[derive(PartialEq, Eq, Structural, Clone, Copy, Debug)]
pub enum LockStep {
    /// Create the folder and its parents.
    CreateFolder,
    /// Create the sync-lock file, failing if it exists.
    CreateSyncLock,
    /// Fill the folder (extract the tarball, or link the files of the original).
    Populate,
    /// Remove the sync-lock file.
    RemoveSyncLock,
    /// Remove the folder with everything in it.
    RemoveFolder,
    /// Nothing is left to do.
    Finished,
}

/// Why a step failed, as the caller observed it.
pub struct StepError {
    pub message: String,
    /// The file or folder that the step worked on was not there.
    pub not_found: bool,
}

/// The state of populating one folder.
pub struct FolderSyncLock {
    pub package: NpmPackageNv,
    pub folder: Vec<String>,
    pub step: LockStep,
    /// The failure that ended the population, if one did.
    pub failure: Option<PopulateFailure>,
    /// Why removing the folder after a failure failed, if it did.
    pub remove_error: Option<String>,
    /// Whether the folder may exist, as far as the reported outcomes tell.
    pub folder_exists: bool,
    /// Whether the sync-lock file may exist, as far as the reported outcomes tell.
    pub sync_lock_present: bool,
}

/// The state after `s` once its step had outcome `o`.
pub open spec fn next_state(s: FolderSyncLock, o: Result<(), StepError>) -> FolderSyncLock {
    match s.step {
        LockStep::CreateFolder => match o {
            Ok(()) => FolderSyncLock { step: LockStep::CreateSyncLock, folder_exists: true, ..s },
            Err(e) => FolderSyncLock {
                step: LockStep::RemoveFolder,
                failure: Some(PopulateFailure::CreateFolder { message: e.message }),
                folder_exists: true,
                ..s
            },
        },
        LockStep::CreateSyncLock => match o {
            Ok(()) => FolderSyncLock { step: LockStep::Populate, sync_lock_present: true, ..s },
            Err(e) => FolderSyncLock {
                step: LockStep::RemoveFolder,
                failure: Some(PopulateFailure::SyncLockConflict { message: e.message }),
                ..s
            },
        },
        LockStep::Populate => match o {
            Ok(()) => FolderSyncLock { step: LockStep::RemoveSyncLock, ..s },
            Err(e) => FolderSyncLock {
                step: LockStep::RemoveFolder,
                failure: Some(PopulateFailure::Population { message: e.message }),
                ..s
            },
        },
        LockStep::RemoveSyncLock => FolderSyncLock {
            step: LockStep::Finished,
            sync_lock_present: match o {
                Ok(()) => false,
                Err(e) => !e.not_found,
            },
            ..s
        },
        LockStep::RemoveFolder => match o {
            Err(e) => if e.not_found {
                FolderSyncLock { step: LockStep::Finished, folder_exists: false, sync_lock_present: false, ..s }
            } else {
                FolderSyncLock { step: LockStep::Finished, remove_error: Some(e.message), ..s }
            },
            Ok(()) => FolderSyncLock {
                step: LockStep::Finished,
                folder_exists: false,
                sync_lock_present: false,
                ..s
            },
        },
        LockStep::Finished => s,
    }
}

impl FolderSyncLock {
    /// The states that the protocol passes through.
    pub open spec fn wf(&self) -> bool {
        match self.step {
            LockStep::CreateFolder => self.failure is None && self.remove_error is None && !self.sync_lock_present,
            LockStep::CreateSyncLock => self.failure is None && self.remove_error is None && self.folder_exists
                && !self.sync_lock_present,
            LockStep::Populate | LockStep::RemoveSyncLock => self.failure is None && self.remove_error is None
                && self.folder_exists && self.sync_lock_present,
            LockStep::RemoveFolder => self.failure is Some && self.remove_error is None && self.folder_exists,
            LockStep::Finished => (self.failure is None ==> self.folder_exists && self.remove_error is None)
                && (self.remove_error is Some ==> self.failure is Some && self.folder_exists)
                && (self.failure is Some && self.remove_error is None ==> !self.folder_exists && !self.sync_lock_present),
        }
    }

    /// Starts populating `folder` for `package`.
    pub fn new(package: NpmPackageNv, folder: Vec<String>) -> (r: FolderSyncLock)
        ensures
            r.wf(),
            r.step == LockStep::CreateFolder,
            r.package == package,
            r.folder == folder,
            !r.folder_exists,
    {
        FolderSyncLock {
            package,
            folder,
            step: LockStep::CreateFolder,
            failure: None,
            remove_error: None,
            folder_exists: false,
            sync_lock_present: false,
        }
    }

    /// Records the outcome of the current step and moves to the next one.
    pub fn advance(&mut self, outcome: Result<(), StepError>)
        requires
            old(self).wf(),
            old(self).step != LockStep::Finished,
        ensures
            *final(self) == next_state(*old(self), outcome),
            final(self).wf(),
    {
        let ghost o = outcome;
        match self.step {
            LockStep::CreateFolder => match outcome {
                Ok(()) => {
                    self.step = LockStep::CreateSyncLock;
                    self.folder_exists = true;
                },
                Err(e) => {
                    self.step = LockStep::RemoveFolder;
                    self.failure = Some(PopulateFailure::CreateFolder { message: e.message });
                    self.folder_exists = true;
                },
            },
            LockStep::CreateSyncLock => match outcome {
                Ok(()) => {
                    self.step = LockStep::Populate;
                    self.sync_lock_present = true;
                },
                Err(e) => {
                    self.step = LockStep::RemoveFolder;
                    self.failure = Some(PopulateFailure::SyncLockConflict { message: e.message });
                },
            },
            LockStep::Populate => match outcome {
                Ok(()) => {
                    self.step = LockStep::RemoveSyncLock;
                },
                Err(e) => {
                    self.step = LockStep::RemoveFolder;
                    self.failure = Some(PopulateFailure::Population { message: e.message });
                },
            },
            LockStep::RemoveSyncLock => {
                self.step = LockStep::Finished;
                self.sync_lock_present = match outcome {
                    Ok(()) => false,
                    Err(e) => !e.not_found,
                };
            },
            LockStep::RemoveFolder => match outcome {
                Err(e) => {
                    self.step = LockStep::Finished;
                    if e.not_found {
                        self.folder_exists = false;
                        self.sync_lock_present = false;
                    } else {
                        self.remove_error = Some(e.message);
                    }
                },
                Ok(()) => {
                    self.step = LockStep::Finished;
                    self.folder_exists = false;
                    self.sync_lock_present = false;
                },
            },
            LockStep::Finished => {},
        }
    }

    /// The result of a finished population: `Ok` exactly when every step up
    /// to filling the folder succeeded.
    pub fn finish(self) -> (r: Result<(), NpmCacheError>)
        requires
            self.step == LockStep::Finished,
        ensures
            match r {
                Ok(()) => self.failure is None,
                Err(e) => match e {
                    NpmCacheError::SetupFailed { package, failure } => self.failure == Some(failure)
                        && self.remove_error is None && package == self.package,
                    NpmCacheError::CorruptCleanup { package, failure, remove_error, folder } => self.failure
                        == Some(failure) && self.remove_error == Some(remove_error) && package == self.package
                        && folder == self.folder,
                    _ => false,
                },
            },
    {
        match self.failure {
            None => Ok(()),
            Some(failure) => match self.remove_error {
                None => Err(NpmCacheError::SetupFailed { package: self.package, failure }),
                Some(remove_error) => Err(
                    NpmCacheError::CorruptCleanup { package: self.package, failure, remove_error, folder: self.folder },
                ),
            },
        }
    }
}

/// After filling the folder fails, the next step removes the folder. Once
/// that is reported, the folder is gone; only where the removal itself
/// failed does it remain, with its sync-lock file, and the population ends
/// in a `CorruptCleanup` error.
pub proof fn lemma_failed_population_rolls_back(s: FolderSyncLock, failure: StepError, removal: Result<(), StepError>)
    requires
        s.wf(),
        s.step == LockStep::Populate,
    ensures
        next_state(s, Err(failure)).step == LockStep::RemoveFolder,
        next_state(next_state(s, Err(failure)), removal).step == LockStep::Finished,
        next_state(next_state(s, Err(failure)), removal).failure == Some(
            PopulateFailure::Population { message: failure.message },
        ),
        match removal {
            Err(e) if !e.not_found => {
                let t = next_state(next_state(s, Err(failure)), removal);
                t.folder_exists && t.sync_lock_present && t.remove_error == Some(e.message)
            },
            _ => {
                let t = next_state(next_state(s, Err(failure)), removal);
                !t.folder_exists && !t.sync_lock_present && t.remove_error is None
            },
        },
{
}

} // verus!
