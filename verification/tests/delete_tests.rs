use tempfile::TempDir;

use deptox::delete::{validate_delete_path, DeleteResult, DeleteValidationError};

#[test]
fn test_validate_delete_path_nonexistent() {
    let result = validate_delete_path("/nonexistent/path/node_modules");
    // Canonicalization fails for non-existent paths, returning InvalidPath
    assert!(matches!(result, Err(DeleteValidationError::InvalidPath(_))));
}

#[test]
fn test_validation_error_display() {
    assert_eq!(
        DeleteValidationError::DoesNotExist.message(),
        "Directory does not exist"
    );
    assert_eq!(
        DeleteValidationError::NotADirectory.message(),
        "Path is not a directory"
    );
    assert_eq!(
        DeleteValidationError::NotDependencyDirectory.message(),
        "Can only delete dependency directories"
    );
}

#[test]
fn test_delete_result_clone() {
    let original = DeleteResult {
        success: true,
        path: "/test/node_modules".to_string(),
        size_freed: 1024,
    };
    let cloned = original.clone();
    assert_eq!(original.success, cloned.success);
    assert_eq!(original.path, cloned.path);
    assert_eq!(original.size_freed, cloned.size_freed);
}

#[test]
fn test_delete_validation_error_clone() {
    let original = DeleteValidationError::DoesNotExist;
    let cloned = original.clone();
    assert_eq!(original, cloned);
}

#[test]
fn test_validate_delete_path_file_not_directory() {
    let temp_dir = TempDir::new().unwrap();
    let file_path = temp_dir.path().join("node_modules");
    fs_err::write(&file_path, "content").unwrap();

    let result = validate_delete_path(file_path.to_str().unwrap());
    assert_eq!(result, Err(DeleteValidationError::NotADirectory));
}

#[test]
fn test_validate_delete_path_not_dependency_directory() {
    let temp_dir = TempDir::new().unwrap();
    let dir_path = temp_dir.path().join("src");
    fs_err::create_dir(&dir_path).unwrap();

    let result = validate_delete_path(dir_path.to_str().unwrap());
    assert_eq!(result, Err(DeleteValidationError::NotDependencyDirectory));
}

#[test]
fn test_validate_delete_path_valid_node_modules() {
    let temp_dir = TempDir::new().unwrap();
    let node_modules = temp_dir.path().join("project").join("node_modules");
    fs_err::create_dir_all(&node_modules).unwrap();

    let result = validate_delete_path(node_modules.to_str().unwrap());
    assert!(result.is_ok());
    // Verify it returns the canonical path
    let canonical = result.unwrap();
    assert!(canonical.ends_with("node_modules"));
}
