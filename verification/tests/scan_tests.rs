use deptox::fsprobe::get_last_modified_ms;
use deptox::pathutil::is_inside_dependency_directory;
use deptox::taxonomy::get_all_dependency_directory_names;

#[test]
fn test_is_inside_dependency_directory() {
    let all_deps = get_all_dependency_directory_names();

    assert!(!is_inside_dependency_directory(
        "/Users/testuser/project/node_modules",
        "node_modules",
        &all_deps
    ));

    assert!(is_inside_dependency_directory(
        "/Users/testuser/project/node_modules/pkg/node_modules",
        "node_modules",
        &all_deps
    ));

    assert!(is_inside_dependency_directory(
        "/Users/testuser/project/vendor/package/node_modules",
        "node_modules",
        &all_deps
    ));

    assert!(is_inside_dependency_directory(
        "/Users/testuser/project/node_modules/rust-pkg/target",
        "target",
        &all_deps
    ));

    assert!(!is_inside_dependency_directory(
        "/Users/testuser/rust-project/target",
        "target",
        &all_deps
    ));
}

#[test]
fn test_pnpm_nested_node_modules_are_filtered() {
    let all_deps = get_all_dependency_directory_names();

    assert!(is_inside_dependency_directory(
        "/project/node_modules/.pnpm/lodash@4.17.21/node_modules",
        "node_modules",
        &all_deps
    ));

    assert!(!is_inside_dependency_directory(
        "/project/node_modules",
        "node_modules",
        &all_deps
    ));
}

#[test]
fn test_monorepo_packages_not_filtered() {
    let all_deps = get_all_dependency_directory_names();

    assert!(!is_inside_dependency_directory(
        "/monorepo/packages/tailwind/node_modules",
        "node_modules",
        &all_deps
    ));

    assert!(!is_inside_dependency_directory(
        "/monorepo/packages/schema/node_modules",
        "node_modules",
        &all_deps
    ));

    assert!(!is_inside_dependency_directory(
        "/monorepo/apps/web/node_modules",
        "node_modules",
        &all_deps
    ));
}

#[test]
fn test_get_last_modified_ms_nonexistent() {
    let modified_ms = get_last_modified_ms("/nonexistent/path");

    assert_eq!(modified_ms, 0);
}
