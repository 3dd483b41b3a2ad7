use deptox::filesystem::validate_path_exists;

#[test]
fn test_validate_path_exists_with_nonexistent_path() {
    let result = validate_path_exists("/nonexistent/path/that/does/not/exist");
    assert!(result.is_err());
    assert_eq!(result.unwrap_err(), "Path does not exist");
}

#[test]
fn test_validate_path_exists_with_empty_path() {
    let result = validate_path_exists("");
    assert!(result.is_err());
}
