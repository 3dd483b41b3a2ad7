use deptox::pathutil::is_inside_dependency_directory;
use deptox::scan::{JWALK_BUSY_TIMEOUT_MS, MAX_SCAN_DEPTH};
use deptox::taxonomy::get_all_dependency_directory_names;

#[test]
fn test_max_scan_depth_is_reasonable() {
    // Depth should be enough to find deeply nested projects but not too deep
    assert!(MAX_SCAN_DEPTH >= 10, "Should scan at least 10 levels deep");
    assert!(
        MAX_SCAN_DEPTH <= 30,
        "Should not scan too deep (performance)"
    );
}

#[test]
fn test_jwalk_busy_timeout_is_reasonable() {
    // Timeout should be short enough for responsiveness
    assert!(JWALK_BUSY_TIMEOUT_MS <= 500);
    assert!(JWALK_BUSY_TIMEOUT_MS >= 50);
}

#[test]
fn test_is_inside_dependency_directory_simple_node_modules() {
    let all_deps = get_all_dependency_directory_names();
    assert!(!is_inside_dependency_directory(
        "/Users/testuser/project/node_modules",
        "node_modules",
        &all_deps
    ));
}

#[test]
fn test_is_inside_dependency_directory_nested_node_modules() {
    let all_deps = get_all_dependency_directory_names();
    assert!(is_inside_dependency_directory(
        "/Users/testuser/project/node_modules/package/node_modules",
        "node_modules",
        &all_deps
    ));
}

#[test]
fn test_is_inside_dependency_directory_deeply_nested() {
    let all_deps = get_all_dependency_directory_names();
    assert!(is_inside_dependency_directory(
        "/project/node_modules/a/node_modules/b/node_modules",
        "node_modules",
        &all_deps
    ));
}

#[test]
fn test_is_inside_dependency_directory_target_inside_node_modules() {
    let all_deps = get_all_dependency_directory_names();
    assert!(is_inside_dependency_directory(
        "/project/node_modules/some-rust-binding/target",
        "target",
        &all_deps
    ));
}

#[test]
fn test_is_inside_dependency_directory_vendor_inside_node_modules() {
    let all_deps = get_all_dependency_directory_names();
    assert!(is_inside_dependency_directory(
        "/project/node_modules/some-php-package/vendor",
        "vendor",
        &all_deps
    ));
}

#[test]
fn test_is_inside_dependency_directory_pods_inside_node_modules() {
    let all_deps = get_all_dependency_directory_names();
    assert!(is_inside_dependency_directory(
        "/project/node_modules/react-native/ios/Pods",
        "Pods",
        &all_deps
    ));
}

#[test]
fn test_is_inside_dependency_directory_simple_target() {
    let all_deps = get_all_dependency_directory_names();
    assert!(!is_inside_dependency_directory(
        "/Users/testuser/rust-project/target",
        "target",
        &all_deps
    ));
}

#[test]
fn test_is_inside_dependency_directory_simple_vendor() {
    let all_deps = get_all_dependency_directory_names();
    assert!(!is_inside_dependency_directory(
        "/Users/testuser/php-project/vendor",
        "vendor",
        &all_deps
    ));
}

#[test]
fn test_is_inside_dependency_directory_simple_pods() {
    let all_deps = get_all_dependency_directory_names();
    assert!(!is_inside_dependency_directory(
        "/Users/testuser/ios-project/Pods",
        "Pods",
        &all_deps
    ));
}

#[test]
fn test_is_inside_dependency_directory_empty_path() {
    let all_deps = get_all_dependency_directory_names();
    assert!(!is_inside_dependency_directory(
        "",
        "node_modules",
        &all_deps
    ));
}

#[test]
fn test_is_inside_dependency_directory_root_only() {
    let all_deps = get_all_dependency_directory_names();
    assert!(!is_inside_dependency_directory(
        "/node_modules",
        "node_modules",
        &all_deps
    ));
}

#[test]
fn test_is_inside_dependency_directory_dir_name_not_in_path() {
    let all_deps = get_all_dependency_directory_names();
    assert!(!is_inside_dependency_directory(
        "/Users/testuser/project/src/components",
        "node_modules",
        &all_deps
    ));
}

#[test]
fn test_is_inside_dependency_directory_substring_match_false_positive() {
    let all_deps = get_all_dependency_directory_names();
    // Should NOT match "node_modules" as substring of "old_node_modules_backup"
    assert!(!is_inside_dependency_directory(
        "/Users/node_modules_backup/project/node_modules",
        "node_modules",
        &all_deps
    ));
}

#[test]
fn test_is_inside_dependency_directory_multiple_dependency_types() {
    let all_deps = get_all_dependency_directory_names();
    assert!(is_inside_dependency_directory(
        "/project/vendor/some-package/target",
        "target",
        &all_deps
    ));

    assert!(is_inside_dependency_directory(
        "/project/Pods/react-native/node_modules",
        "node_modules",
        &all_deps
    ));

    assert!(is_inside_dependency_directory(
        "/project/node_modules/python-bridge/.venv",
        ".venv",
        &all_deps
    ));
}

#[test]
fn test_is_inside_dependency_directory_case_sensitivity() {
    let all_deps = get_all_dependency_directory_names();
    assert!(!is_inside_dependency_directory(
        "/project/NODE_MODULES/package/node_modules",
        "node_modules",
        &all_deps
    ));
}

#[test]
fn test_is_inside_dependency_directory_trailing_slash() {
    let all_deps = get_all_dependency_directory_names();
    assert!(!is_inside_dependency_directory(
        "/Users/testuser/project/node_modules/",
        "node_modules",
        &all_deps
    ));
}

#[test]
fn test_is_inside_dependency_directory_unix_separator() {
    let all_deps = get_all_dependency_directory_names();
    assert!(is_inside_dependency_directory(
        "/project/node_modules/pkg/node_modules",
        "node_modules",
        &all_deps
    ));
}
