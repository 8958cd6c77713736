//! Keeping local copies of package repositories.

use crate::db_queries::UpdateUrlError;
use crate::elm_package::ElmPackageError;
use crate::git_repo::GitError;
use vstd::prelude::*;

verus! {

/// Where the local copies lie and which programs fetch them.
#[derive(Debug, Clone)]
pub struct RepoCacheOptions {
    /// Root directory of the local copies.
    pub cache_path: String,
    pub chromium_bin_path: String,
    pub git_bin_path: String,
}

/// What bringing a repository up to date took.
#[derive(Debug, Clone, Copy, PartialEq, Eq)]
pub enum SyncResult {
    Update,
    Clone,
}

/// What to do for a repository: update the local copy where there is one,
/// clone the repository where there is none.
pub fn sync_action(copy_exists: bool) -> (action: SyncResult)
    ensures
        action == if copy_exists {
            SyncResult::Update
        } else {
            SyncResult::Clone
        },
{
    if copy_exists {
        SyncResult::Update
    } else {
        SyncResult::Clone
    }
}

/// Why a repository was not brought up to date.
#[derive(Debug, PartialEq)]
pub enum SyncRepoError {
    GitError(GitError),
    ElmPackageError(ElmPackageError),
    UpdateUrlError(UpdateUrlError),
}

impl From<GitError> for SyncRepoError {
    fn from(e: GitError) -> (wrapped: Self) {
        SyncRepoError::GitError(e)
    }
}

impl vstd::std_specs::convert::FromSpecImpl<GitError> for SyncRepoError {
    open spec fn obeys_from_spec() -> bool {
        true
    }

    open spec fn from_spec(e: GitError) -> Self {
        SyncRepoError::GitError(e)
    }
}

impl From<ElmPackageError> for SyncRepoError {
    fn from(e: ElmPackageError) -> (wrapped: Self) {
        SyncRepoError::ElmPackageError(e)
    }
}

impl vstd::std_specs::convert::FromSpecImpl<ElmPackageError> for SyncRepoError {
    open spec fn obeys_from_spec() -> bool {
        true
    }

    open spec fn from_spec(e: ElmPackageError) -> Self {
        SyncRepoError::ElmPackageError(e)
    }
}

impl From<UpdateUrlError> for SyncRepoError {
    fn from(e: UpdateUrlError) -> (wrapped: Self) {
        SyncRepoError::UpdateUrlError(e)
    }
}

impl vstd::std_specs::convert::FromSpecImpl<UpdateUrlError> for SyncRepoError {
    open spec fn obeys_from_spec() -> bool {
        true
    }

    open spec fn from_spec(e: UpdateUrlError) -> Self {
        SyncRepoError::UpdateUrlError(e)
    }
}

/// Whether a repository that failed with `error` is worth a second try: yes
/// where its page showed no link to the source, which happens when the
/// browser wrote the page before it was complete.
pub fn should_retry(error: &SyncRepoError) -> (retry: bool)
    ensures
        retry == (error matches SyncRepoError::ElmPackageError(ElmPackageError::CantFindUrl(_))),
{
    match error {
        SyncRepoError::ElmPackageError(ElmPackageError::CantFindUrl(_)) => true,
        _ => false,
    }
}

} // verus!
