use deptox::taxonomy::DependencyCategory;
use deptox::types::SizeCalculationResult;

#[test]
fn test_size_calculation_result_fields() {
    let result = SizeCalculationResult {
        path: "/test/path".to_string(),
        category: DependencyCategory::NodeModules,
        total_size: 1024,
        file_count: 10,
        last_modified_ms: 1234567890000,
        has_only_symlinks: false,
    };

    assert_eq!(result.path, "/test/path");
    assert_eq!(result.category, DependencyCategory::NodeModules);
    assert_eq!(result.total_size, 1024);
    assert_eq!(result.file_count, 10);
    assert_eq!(result.last_modified_ms, 1234567890000);
    assert!(!result.has_only_symlinks);
}
