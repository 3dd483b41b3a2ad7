//! The safe-delete path: canonicalization, validation that only
//! dependency directories may be deleted, and the cloud-storage fallback
//! test on a trash error.

use vstd::prelude::*;

verus! {

use vstd::string::StrSliceExecFns;
use vstd::string::StringExecFns;
use crate::strutil::{str_eq, str_contains, is_substring_of, is_prefix_of};
use crate::pathutil::{basename, basename_spec, is_canonical_path};
use crate::taxonomy::category_from_name;
use crate::fsprobe::{canonicalize_path_string, path_exists, path_is_dir};

/// Concurrent deletions allowed in one batch.
pub const MAX_CONCURRENT_DELETES: usize = 4;

/// Why a candidate path may not be deleted.
#[derive(Debug, Clone, PartialEq)]
pub enum DeleteValidationError {
    DoesNotExist,
    NotADirectory,
    NotDependencyDirectory,
    InvalidPath(String),
}

impl DeleteValidationError {
    /// The human-readable description of the error.
    pub fn message(&self) -> (r: String)
        ensures
            match self {
                DeleteValidationError::DoesNotExist => r@ == "Directory does not exist"@,
                DeleteValidationError::NotADirectory => r@ == "Path is not a directory"@,
                DeleteValidationError::NotDependencyDirectory => r@
                    == "Can only delete dependency directories"@,
                DeleteValidationError::InvalidPath(d) => r@ == "Invalid path: "@ + d@,
            },
    {
        match self {
            DeleteValidationError::DoesNotExist => "Directory does not exist".to_owned(),
            DeleteValidationError::NotADirectory => "Path is not a directory".to_owned(),
            DeleteValidationError::NotDependencyDirectory =>
                "Can only delete dependency directories".to_owned(),
            DeleteValidationError::InvalidPath(d) => "Invalid path: ".to_owned().concat(
                d.as_str(),
            ),
        }
    }
}

/// The outcome of one delete.
#[derive(Debug, Clone)]
pub struct DeleteResult {
    pub success: bool,
    pub path: String,
    pub size_freed: u64,
}

/// A basename whose directory the executor may delete: any categorized
/// name, or one of the ambiguous names `vendor`, `deps`, `pkg`.
pub open spec fn is_deletable_basename(name: Seq<char>) -> bool {
    ||| category_from_name(name) is Some
    ||| name == "vendor"@
    ||| name == "deps"@
    ||| name == "pkg"@
}

/// Decides, over the already canonicalized path and the probes' answers,
/// whether deletion may proceed: the path must exist, be a directory, and
/// end in a deletable basename.
pub fn classify_delete_candidate(canonical: &str, exists: bool, is_directory: bool) -> (r: Result<
    String,
    DeleteValidationError,
>)
    ensures
        !exists ==> r == Err::<String, DeleteValidationError>(
            DeleteValidationError::DoesNotExist,
        ),
        exists && !is_directory ==> r == Err::<String, DeleteValidationError>(
            DeleteValidationError::NotADirectory,
        ),
        exists && is_directory && !is_deletable_basename(basename_spec(canonical@)) ==> r
            == Err::<String, DeleteValidationError>(
            DeleteValidationError::NotDependencyDirectory,
        ),
        exists && is_directory && is_deletable_basename(basename_spec(canonical@))
            ==> (r matches Ok(c) && c@ == canonical@),
{
    if !exists {
        return Err(DeleteValidationError::DoesNotExist);
    }
    if !is_directory {
        return Err(DeleteValidationError::NotADirectory);
    }
    let name = basename(canonical);
    let n = name.as_str();
    let is_dependency_dir = match crate::taxonomy::DependencyCategory::from_directory_name(n) {
        Some(_) => true,
        None => str_eq(n, "vendor") || str_eq(n, "deps") || str_eq(n, "pkg"),
    };
    if !is_dependency_dir {
        return Err(DeleteValidationError::NotDependencyDirectory);
    }
    Ok(canonical.to_owned())
}

/// Validates a candidate path for deletion: the path is canonicalized,
/// resolving every symbolic link and every `.` or `..`, and accepted only
/// when the canonical path is a directory whose basename is a dependency
/// directory name. Whatever the disk answers, an accepted path is
/// canonical — free of `.` and `..` — and ends in a deletable basename.
pub fn validate_delete_path(path: &str) -> (r: Result<String, DeleteValidationError>)
    ensures
        r matches Ok(c) ==> is_canonical_path(c@) && is_deletable_basename(basename_spec(c@)),
        match r {
            Err(e) => match e {
                DeleteValidationError::InvalidPath(d) => is_prefix_of(
                    d@,
                    "Failed to resolve path: "@,
                ),
                _ => true,
            },
            Ok(_) => true,
        },
{
    let canonical = match canonicalize_path_string(path) {
        Ok(c) => c,
        Err(detail) => {
            let msg = "Failed to resolve path: ".to_owned().concat(detail.as_str());
            proof {
                assert(msg@.subrange(0, "Failed to resolve path: "@.len() as int)
                    =~= "Failed to resolve path: "@);
            }
            return Err(DeleteValidationError::InvalidPath(msg));
        },
    };
    let exists = path_exists(canonical.as_str());
    let is_directory = path_is_dir(canonical.as_str());
    classify_delete_candidate(canonical.as_str(), exists, is_directory)
}

/// Whether a trash error reports a cloud-backed file that must be
/// downloaded first; such a delete falls back to permanent removal.
pub fn trash_error_needs_download(message: &str) -> (r: bool)
    ensures
        r == is_substring_of(message@, "needs to be downloaded"@),
{
    str_contains(message, "needs to be downloaded")
}

} // verus!
