//! Trusted probes into the filesystem and platform environment. Each
//! wrapper makes one outside call; what the disk or machine decides is not
//! promised, only properties the call's documentation guarantees of every
//! outcome.

use vstd::prelude::*;

verus! {

use crate::pathutil::is_canonical_path;

/// Relies on std::path::Path::exists: whether the path points at an entity
/// on disk. The disk decides; nothing is promised of the result.
#[verifier::external_body]
pub fn path_exists(path: &str) -> bool {
    std::path::Path::new(path).exists()
}

/// Relies on std::path::Path::is_dir: whether the path points at a
/// directory. The disk decides; nothing is promised of the result.
#[verifier::external_body]
pub fn path_is_dir(path: &str) -> bool {
    std::path::Path::new(path).is_dir()
}

/// Relies on dirs::home_dir: the user's home directory, if the platform
/// reports one. The environment decides; nothing is promised of the result.
#[verifier::external_body]
pub fn home_dir_string() -> Option<String> {
    dirs::home_dir().map(|p| p.to_string_lossy().into_owned())
}

/// Relies on std::path::Path::canonicalize: on success the returned path is
/// absolute with every symbolic link resolved and no `.` or `..` component
/// remaining; it errs when the path does not exist.
#[verifier::external_body]
pub fn canonicalize_path_string(path: &str) -> (r: Result<String, String>)
    ensures
        r matches Ok(c) ==> is_canonical_path(c@),
{
    match std::path::Path::new(path).canonicalize() {
        Ok(p) => Ok(p.to_string_lossy().into_owned()),
        Err(e) => Err(e.to_string()),
    }
}

/// Relies on std::path::Path::metadata and std::time::SystemTime: the
/// entity's modification time in milliseconds since the Unix epoch, or 0
/// when the path or its timestamp cannot be read. The disk decides;
/// nothing is promised of the result.
#[verifier::external_body]
pub fn get_last_modified_ms(path: &str) -> u64 {
    std::path::Path::new(path)
        .metadata()
        .and_then(|m| m.modified())
        .ok()
        .and_then(|t| t.duration_since(std::time::UNIX_EPOCH).ok())
        .map(|d| d.as_millis() as u64)
        .unwrap_or(0)
}

} // verus!
