use tempfile::TempDir;

use deptox::scan::{discover_directories, ScanConfig};
use deptox::settings::AppSettings;
use deptox::sizer::calculate_dir_size_full;
use deptox::walkfs::walk_dir_entries;

// A directory holding only broken symlinks reports the symlink-only flag
// with zero size and zero files.
#[test]
fn broken_symlinks_only() {
    let temp = TempDir::new().unwrap();
    fs_err::os::unix::fs::symlink("/nonexistent/target-a", temp.path().join("a")).unwrap();
    fs_err::os::unix::fs::symlink("/nonexistent/target-b", temp.path().join("b")).unwrap();

    let sized = calculate_dir_size_full(temp.path().to_str().unwrap());
    assert!(sized.has_only_symlinks);
    assert_eq!(sized.total_size, 0);
    assert_eq!(sized.file_count, 0);
}

// A circular symlink pair terminates without panicking.
#[test]
fn circular_symlinks_terminate() {
    let temp = TempDir::new().unwrap();
    let dir = temp.path().join("loop");
    fs_err::create_dir_all(&dir).unwrap();
    fs_err::os::unix::fs::symlink(&dir, dir.join("back")).unwrap();

    let sized = calculate_dir_size_full(temp.path().to_str().unwrap());
    assert_eq!(sized.total_size, 0);
}

// The hoisted-store layout: the store's files are counted once directly
// and once through the hoisted symlink, and the inner node_modules is
// filtered as nested.
#[test]
fn pnpm_hoisted_store() {
    let temp = TempDir::new().unwrap();
    let node_modules = temp.path().join("app").join("node_modules");
    let store_pkg = node_modules
        .join(".pnpm")
        .join("lodash@4.17.21")
        .join("node_modules")
        .join("lodash");
    fs_err::create_dir_all(&store_pkg).unwrap();
    fs_err::write(store_pkg.join("index.js"), "x".repeat(20)).unwrap();
    fs_err::write(store_pkg.join("package.json"), "y".repeat(17)).unwrap();
    fs_err::os::unix::fs::symlink(&store_pkg, node_modules.join("lodash")).unwrap();

    let root = temp.path().to_str().unwrap();
    let mut settings = AppSettings::default();
    settings.root_directory = root.to_string();
    let config = ScanConfig::from_settings(&settings);
    let records = walk_dir_entries(root, false, 15, true);
    let (discovered, _) = discover_directories(&records, &config);

    assert_eq!(discovered.len(), 1);
    assert!(discovered[0].path.ends_with("app/node_modules"));

    let sized = calculate_dir_size_full(&discovered[0].path);
    assert_eq!(sized.total_size, 74);
    assert_eq!(sized.file_count, 4);
    assert!(!sized.has_only_symlinks);
}
