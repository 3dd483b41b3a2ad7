use tempfile::TempDir;

use deptox::delete::{validate_delete_path, DeleteValidationError};
use deptox::largest::get_largest_files;
use deptox::pattern::{matches_wildcard_pattern, parse_exclude_patterns};
use deptox::scan::{discover_directories, finalize_scan, rescan_directory, ScanConfig};
use deptox::settings::{validate_exclude_patterns, AppSettings, SettingsError};
use deptox::sizer::calculate_dir_size_full;
use deptox::taxonomy::DependencyCategory;
use deptox::types::DirectoryEntry;
use deptox::walkfs::walk_dir_entries;
use deptox::largest::classify_largest_target;
use deptox::scan::classify_rescan_target;
use deptox::sizer::assemble_size_result;
use deptox::taxonomy::{classify_deps, classify_pkg, gate_marker_category};
use deptox::background::saturating_sum;
use deptox::sizer::calculate_dir_size;

fn settings_with_root(root: &str) -> AppSettings {
    let mut settings = AppSettings::default();
    settings.root_directory = root.to_string();
    settings
}

fn run_discovery(root: &str) -> Vec<deptox::types::DiscoveredDirectory> {
    let config = ScanConfig::from_settings(&settings_with_root(root));
    let records = walk_dir_entries(root, false, 15, true);
    let (discovered, _skipped) = discover_directories(&records, &config);
    discovered
}

// Simple NodeModules discovery: one entry with the exact size, count and
// category.
#[test]
fn simple_node_modules_discovery() {
    let temp = TempDir::new().unwrap();
    let node_modules = temp.path().join("app").join("node_modules");
    fs_err::create_dir_all(&node_modules).unwrap();
    fs_err::write(node_modules.join("a.txt"), "12345").unwrap();
    fs_err::write(node_modules.join("b.txt"), "123").unwrap();

    let discovered = run_discovery(temp.path().to_str().unwrap());
    assert_eq!(discovered.len(), 1);
    assert_eq!(discovered[0].category, DependencyCategory::NodeModules);
    assert!(discovered[0].path.ends_with("node_modules"));

    let sized = calculate_dir_size_full(&discovered[0].path);
    assert_eq!(sized.total_size, 8);
    assert_eq!(sized.file_count, 2);
    assert!(!sized.has_only_symlinks);

    let entries = vec![DirectoryEntry {
        path: discovered[0].path.clone(),
        size_bytes: sized.total_size,
        file_count: sized.file_count,
        last_modified_ms: sized.last_modified_ms,
        category: discovered[0].category,
        has_only_symlinks: sized.has_only_symlinks,
    }];
    let result = finalize_scan(entries, 0, 1);
    assert_eq!(result.total_size, 8);
    assert_eq!(result.entries.len(), 1);
}

// Ambiguous vendor, four layouts.
#[test]
fn ambiguous_vendor_layouts() {
    // Layout A: vendor/autoload.php -> Composer
    let a = TempDir::new().unwrap();
    let vendor_a = a.path().join("proj").join("vendor");
    fs_err::create_dir_all(&vendor_a).unwrap();
    fs_err::write(vendor_a.join("autoload.php"), "<?php").unwrap();
    assert_eq!(
        DependencyCategory::from_vendor_directory(vendor_a.to_str().unwrap()),
        Some(DependencyCategory::Composer)
    );

    // Layout B: vendor/bundle/ -> Bundler
    let b = TempDir::new().unwrap();
    let vendor_b = b.path().join("proj").join("vendor");
    fs_err::create_dir_all(vendor_b.join("bundle")).unwrap();
    assert_eq!(
        DependencyCategory::from_vendor_directory(vendor_b.to_str().unwrap()),
        Some(DependencyCategory::Bundler)
    );

    // Layout C: Gemfile next to vendor/ -> Bundler
    let c = TempDir::new().unwrap();
    let proj_c = c.path().join("proj");
    let vendor_c = proj_c.join("vendor");
    fs_err::create_dir_all(&vendor_c).unwrap();
    fs_err::write(proj_c.join("Gemfile"), "source").unwrap();
    assert_eq!(
        DependencyCategory::from_vendor_directory(vendor_c.to_str().unwrap()),
        Some(DependencyCategory::Bundler)
    );

    // Layout D: bare vendor/ -> Composer by default
    let d = TempDir::new().unwrap();
    let vendor_d = d.path().join("proj").join("vendor");
    fs_err::create_dir_all(&vendor_d).unwrap();
    assert_eq!(
        DependencyCategory::from_vendor_directory(vendor_d.to_str().unwrap()),
        Some(DependencyCategory::Composer)
    );
}

// Monorepo: sibling node_modules both appear.
#[test]
fn monorepo_sibling_roots_both_appear() {
    let temp = TempDir::new().unwrap();
    let a = temp.path().join("repo").join("packages").join("A").join("node_modules");
    let b = temp.path().join("repo").join("packages").join("B").join("node_modules");
    fs_err::create_dir_all(&a).unwrap();
    fs_err::create_dir_all(&b).unwrap();
    fs_err::write(a.join("x.js"), "x").unwrap();
    fs_err::write(b.join("y.js"), "y").unwrap();

    let discovered = run_discovery(temp.path().to_str().unwrap());
    assert_eq!(discovered.len(), 2);
    let paths: Vec<&str> = discovered.iter().map(|d| d.path.as_str()).collect();
    assert!(paths.iter().any(|p| p.contains("/A/node_modules")));
    assert!(paths.iter().any(|p| p.contains("/B/node_modules")));
}

// Nesting: an inner node_modules below another never appears.
#[test]
fn nested_roots_are_filtered() {
    let temp = TempDir::new().unwrap();
    let outer = temp.path().join("proj").join("node_modules");
    let inner = outer.join("some-package").join("node_modules");
    fs_err::create_dir_all(&inner).unwrap();
    fs_err::write(outer.join("index.js"), "// outer").unwrap();
    fs_err::write(inner.join("index.js"), "// inner").unwrap();

    let discovered = run_discovery(temp.path().to_str().unwrap());
    assert_eq!(discovered.len(), 1);
    assert!(discovered[0].path.ends_with("proj/node_modules"));
}

// Traversal in delete: a path that climbs out of a dependency root is
// rejected, and the target it pointed at survives.
#[test]
fn delete_rejects_traversal() {
    let temp = TempDir::new().unwrap();
    let node_modules = temp.path().join("proj").join("node_modules");
    fs_err::create_dir_all(&node_modules).unwrap();
    let sensitive = temp.path().join("sensitive");
    fs_err::create_dir_all(&sensitive).unwrap();
    fs_err::write(sensitive.join("data.txt"), "keep me").unwrap();

    let sneaky = format!(
        "{}/proj/node_modules/../../sensitive",
        temp.path().to_str().unwrap()
    );
    let result = validate_delete_path(&sneaky);
    assert_eq!(result, Err(DeleteValidationError::NotDependencyDirectory));
    assert!(sensitive.join("data.txt").exists());
}

// Canonicalization: every accepted path is free of dot components.
#[test]
fn delete_accepts_only_canonical_paths() {
    let temp = TempDir::new().unwrap();
    let node_modules = temp.path().join("proj").join("node_modules");
    fs_err::create_dir_all(&node_modules).unwrap();

    let dotted = format!(
        "{}/proj/./node_modules/../node_modules",
        temp.path().to_str().unwrap()
    );
    let accepted = validate_delete_path(&dotted).unwrap();
    assert!(!accepted.contains("/./"));
    assert!(!accepted.contains("/../"));
    assert!(accepted.starts_with('/'));
    assert!(accepted.ends_with("node_modules"));
}

// Batch-style validation: failures become failed entries, order kept.
#[test]
fn batch_validation_keeps_order_with_one_failure() {
    let temp = TempDir::new().unwrap();
    let mut paths: Vec<String> = Vec::new();
    for name in ["one", "two", "three"] {
        let nm = temp.path().join(name).join("node_modules");
        fs_err::create_dir_all(&nm).unwrap();
        paths.push(nm.to_str().unwrap().to_string());
    }
    paths.push("/nonexistent/batch/node_modules".to_string());

    let results: Vec<bool> = paths
        .iter()
        .map(|p| validate_delete_path(p).is_ok())
        .collect();
    assert_eq!(results.len(), 4);
    assert_eq!(results, vec![true, true, true, false]);
}

// Sort and sum invariants on a concrete result.
#[test]
fn finalize_scan_sorts_and_sums() {
    let entry = |path: &str, size: u64| DirectoryEntry {
        path: path.to_string(),
        size_bytes: size,
        file_count: 1,
        last_modified_ms: 0,
        category: DependencyCategory::NodeModules,
        has_only_symlinks: false,
    };
    let entries = vec![entry("/a", 5), entry("/b", 100), entry("/c", 42)];
    let result = finalize_scan(entries, 7, 123);

    assert_eq!(result.total_size, 147);
    assert_eq!(result.skipped_count, 7);
    assert_eq!(result.scan_time_ms, 123);
    assert_eq!(result.entries.len(), 3);
    assert_eq!(result.entries[0].size_bytes, 100);
    assert_eq!(result.entries[1].size_bytes, 42);
    assert_eq!(result.entries[2].size_bytes, 5);
}

// Wildcard identities: "*" and the empty pattern match everything, and a
// pattern equal to the path matches it.
#[test]
fn wildcard_identities() {
    for path in ["", "/", "/a/b/c", "node_modules", "weird name.txt"] {
        assert!(matches_wildcard_pattern(path, "*"));
        assert!(matches_wildcard_pattern(path, ""));
        assert!(matches_wildcard_pattern(path, path));
    }
    // Equality self-match also holds for a starred pattern.
    assert!(matches_wildcard_pattern("/a*b", "/a*b"));
    // Ten consecutive stars are tolerated.
    assert!(matches_wildcard_pattern("/any/path", "**********"));
    assert!(matches_wildcard_pattern("/any/path", "/any**********path"));
}

// Trimming strips Unicode whitespace, as the exclude field's author may
// paste it.
#[test]
fn parse_trims_unicode_whitespace() {
    let patterns = parse_exclude_patterns("\u{00A0}alpha\u{2003}, beta\u{3000}");
    assert_eq!(patterns, vec!["alpha".to_string(), "beta".to_string()]);
}

// A rescan failure names the unresolved basename with the message for its
// case.
#[test]
fn rescan_errors_name_the_basename() {
    let temp = TempDir::new().unwrap();
    let deps = temp.path().join("proj").join("deps");
    fs_err::create_dir_all(&deps).unwrap();
    let err = rescan_directory(deps.to_str().unwrap()).unwrap_err();
    assert_eq!(err, "Not an Elixir deps directory: deps");

    let pkg = temp.path().join("proj").join("pkg");
    fs_err::create_dir_all(&pkg).unwrap();
    let err = rescan_directory(pkg.to_str().unwrap()).unwrap_err();
    assert_eq!(err, "Not a Go pkg directory: pkg");

    let other = temp.path().join("stuff");
    fs_err::create_dir_all(&other).unwrap();
    let err = rescan_directory(other.to_str().unwrap()).unwrap_err();
    assert_eq!(err, "Unknown dependency category for: stuff");
}

// Parse is idempotent on its own output.
#[test]
fn parse_exclude_patterns_idempotent() {
    for input in [
        "",
        " a , b,, c  ",
        "*/active-*, */important/*",
        " , ,",
        "one",
    ] {
        let parsed = parse_exclude_patterns(input);
        let joined = parsed.join(",");
        let reparsed = parse_exclude_patterns(&joined);
        assert_eq!(parsed, reparsed);
    }
}

// Each exclude-pattern limit violation is reported.
#[test]
fn exclude_pattern_limits() {
    assert!(validate_exclude_patterns("a, b, c").is_ok());

    let too_long_total = "x".repeat(10001);
    assert!(matches!(
        validate_exclude_patterns(&too_long_total),
        Err(SettingsError::InvalidExcludePatterns(_))
    ));

    let too_many = vec!["p"; 51].join(",");
    assert!(matches!(
        validate_exclude_patterns(&too_many),
        Err(SettingsError::InvalidExcludePatterns(_))
    ));

    let long_pattern = "y".repeat(501);
    assert!(matches!(
        validate_exclude_patterns(&long_pattern),
        Err(SettingsError::InvalidExcludePatterns(_))
    ));

    let starry = "*".repeat(11);
    assert!(matches!(
        validate_exclude_patterns(&starry),
        Err(SettingsError::InvalidExcludePatterns(_))
    ));
    // Exactly ten wildcards still pass.
    assert!(validate_exclude_patterns(&"*".repeat(10)).is_ok());
}

// Exclude patterns drop matching paths from discovery.
#[test]
fn discovery_respects_exclude_patterns() {
    let temp = TempDir::new().unwrap();
    let keep = temp.path().join("keep-me").join("node_modules");
    let skip = temp.path().join("active-app").join("node_modules");
    fs_err::create_dir_all(&keep).unwrap();
    fs_err::create_dir_all(&skip).unwrap();

    let mut settings = settings_with_root(temp.path().to_str().unwrap());
    settings.exclude_paths = "*/active-*".to_string();
    let config = ScanConfig::from_settings(&settings);
    let records = walk_dir_entries(temp.path().to_str().unwrap(), false, 15, true);
    let (discovered, _) = discover_directories(&records, &config);

    assert_eq!(discovered.len(), 1);
    assert!(discovered[0].path.contains("keep-me"));
}

// Disabled categories are not discovered.
#[test]
fn discovery_respects_enabled_categories() {
    let temp = TempDir::new().unwrap();
    let nm = temp.path().join("app").join("node_modules");
    let pods = temp.path().join("ios").join("Pods");
    fs_err::create_dir_all(&nm).unwrap();
    fs_err::create_dir_all(&pods).unwrap();

    let mut settings = settings_with_root(temp.path().to_str().unwrap());
    settings.enabled_categories = vec![DependencyCategory::Pods];
    let config = ScanConfig::from_settings(&settings);
    let records = walk_dir_entries(temp.path().to_str().unwrap(), false, 15, true);
    let (discovered, _) = discover_directories(&records, &config);

    assert_eq!(discovered.len(), 1);
    assert_eq!(discovered[0].category, DependencyCategory::Pods);
}

// The walker prunes the skip set: dependency roots under `.cache` are
// never seen.
#[test]
fn discovery_prunes_skip_set() {
    let temp = TempDir::new().unwrap();
    let hidden = temp.path().join(".cache").join("app").join("node_modules");
    fs_err::create_dir_all(&hidden).unwrap();
    fs_err::write(hidden.join("f.txt"), "x").unwrap();

    let discovered = run_discovery(temp.path().to_str().unwrap());
    assert!(discovered.is_empty());
}

// A directory holding only empty files has size zero but a positive file
// count and no symlink flag.
#[test]
fn empty_files_are_counted_without_symlink_flag() {
    let temp = TempDir::new().unwrap();
    fs_err::write(temp.path().join("a"), "").unwrap();
    fs_err::write(temp.path().join("b"), "").unwrap();

    let sized = calculate_dir_size_full(temp.path().to_str().unwrap());
    assert_eq!(sized.total_size, 0);
    assert_eq!(sized.file_count, 2);
    assert!(!sized.has_only_symlinks);
}

// An empty root yields an empty scan.
#[test]
fn empty_root_scans_to_nothing() {
    let temp = TempDir::new().unwrap();
    let discovered = run_discovery(temp.path().to_str().unwrap());
    assert!(discovered.is_empty());

    let result = finalize_scan(Vec::new(), 0, 0);
    assert_eq!(result.total_size, 0);
    assert!(result.entries.is_empty());
}

// Re-measuring an existing root succeeds and echoes the path; a missing
// one reports absence.
#[test]
fn rescan_reports_existence() {
    let temp = TempDir::new().unwrap();
    let nm = temp.path().join("proj").join("node_modules");
    fs_err::create_dir_all(&nm).unwrap();
    fs_err::write(nm.join("f.js"), "abcd").unwrap();

    let found = rescan_directory(nm.to_str().unwrap()).unwrap();
    assert!(found.exists);
    let entry = found.entry.unwrap();
    assert_eq!(entry.path, nm.to_str().unwrap());
    assert_eq!(entry.size_bytes, 4);
    assert_eq!(entry.category, DependencyCategory::NodeModules);

    let missing = rescan_directory("/nonexistent/proj/node_modules").unwrap();
    assert!(!missing.exists);
    assert!(missing.entry.is_none());

    let unknown = rescan_directory(temp.path().to_str().unwrap());
    assert!(unknown.is_err());
}

// The largest-files helper returns at most eight files, sorted by size.
#[test]
fn largest_files_sorted_and_bounded() {
    let temp = TempDir::new().unwrap();
    for i in 0..10u32 {
        let content = "z".repeat((i as usize + 1) * 10);
        fs_err::write(temp.path().join(format!("f{}.bin", i)), content).unwrap();
    }

    let result = get_largest_files(temp.path().to_str().unwrap()).unwrap();
    assert_eq!(result.files.len(), 8);
    assert_eq!(result.directory_path, temp.path().to_str().unwrap());
    assert_eq!(result.files[0].size_bytes, 100);
    assert_eq!(result.files[7].size_bytes, 30);
    for w in result.files.windows(2) {
        assert!(w[0].size_bytes >= w[1].size_bytes);
    }

    let missing = get_largest_files("/nonexistent/dir");
    assert_eq!(missing.unwrap_err(), "Directory does not exist");

    let file_path = temp.path().join("f0.bin");
    let not_dir = get_largest_files(file_path.to_str().unwrap());
    assert_eq!(not_dir.unwrap_err(), "Path is not a directory");
}

// Elixir deps and Go pkg resolve only with their markers.
#[test]
fn deps_and_pkg_need_markers() {
    let temp = TempDir::new().unwrap();
    let proj = temp.path().join("mixproj");
    let deps = proj.join("deps");
    fs_err::create_dir_all(&deps).unwrap();
    assert_eq!(
        DependencyCategory::from_deps_directory(deps.to_str().unwrap()),
        None
    );
    fs_err::write(proj.join("mix.exs"), "defmodule").unwrap();
    assert_eq!(
        DependencyCategory::from_deps_directory(deps.to_str().unwrap()),
        Some(DependencyCategory::ElixirDeps)
    );

    // A trailing slash does not change which parent is probed.
    assert_eq!(
        DependencyCategory::from_deps_directory(&format!("{}/", deps.to_str().unwrap())),
        Some(DependencyCategory::ElixirDeps)
    );

    let go = temp.path().join("go").join("pkg");
    fs_err::create_dir_all(&go).unwrap();
    assert_eq!(
        DependencyCategory::from_pkg_directory(go.to_str().unwrap()),
        None
    );
    fs_err::create_dir_all(go.join("mod")).unwrap();
    assert_eq!(
        DependencyCategory::from_pkg_directory(go.to_str().unwrap()),
        Some(DependencyCategory::GoMod)
    );
}

// Tilde expansion leaves ordinary paths alone and resolves a leading
// tilde to a real directory.
#[test]
fn tilde_expansion() {
    assert_eq!(deptox::pathutil::expand_tilde("/usr/local"), "/usr/local");
    let expanded = deptox::pathutil::expand_tilde("~/Documents");
    assert!(!expanded.starts_with('~'));
    assert!(expanded.ends_with("/Documents"));
}

// The probe classifiers and assembly steps on concrete answers.
#[test]
fn probe_classifiers_and_assembly() {
    // Marker classifiers answer exactly by the marker.
    assert_eq!(classify_deps(true), Some(DependencyCategory::ElixirDeps));
    assert_eq!(classify_deps(false), None);
    assert_eq!(classify_pkg(true), Some(DependencyCategory::GoMod));
    assert_eq!(classify_pkg(false), None);

    // An enabled marker answer is kept, and only that.
    let enabled = vec![DependencyCategory::Composer];
    assert_eq!(
        gate_marker_category(Some(DependencyCategory::Composer), &enabled),
        Some(DependencyCategory::Composer)
    );
    assert_eq!(
        gate_marker_category(Some(DependencyCategory::Bundler), &enabled),
        None
    );
    assert_eq!(gate_marker_category(None, &enabled), None);

    // Rescan proceeds only for an existing directory.
    assert!(classify_rescan_target(true, true).is_none());
    let absent = classify_rescan_target(false, true).unwrap();
    assert!(!absent.exists && absent.entry.is_none());
    let not_dir = classify_rescan_target(true, false).unwrap();
    assert!(!not_dir.exists && not_dir.entry.is_none());

    // The largest-files probes map to their own messages.
    assert!(classify_largest_target(true, true).is_ok());
    assert_eq!(
        classify_largest_target(false, true).unwrap_err(),
        "Directory does not exist"
    );
    assert_eq!(
        classify_largest_target(true, false).unwrap_err(),
        "Path is not a directory"
    );

    // Assembly: the symlink flag holds exactly for an empty tree with a
    // link, and a fileless tree reports the root's own mtime.
    let sized = assemble_size_result(0, 0, 0, true, 777);
    assert!(sized.has_only_symlinks);
    assert_eq!(sized.last_modified_ms, 777);
    let sized = assemble_size_result(10, 2, 555, false, 777);
    assert!(!sized.has_only_symlinks);
    assert_eq!(sized.last_modified_ms, 555);
    assert_eq!(sized.total_size, 10);
    assert_eq!(sized.file_count, 2);
}

// The background tick's composition — walk, discovery filter, sizer,
// saturating sum — honors the discovery predicates, exclude patterns
// included.
#[test]
fn background_total_uses_discovery_predicates() {
    fn tick_total(settings: &AppSettings) -> u64 {
        let config = ScanConfig::from_settings(settings);
        let records = walk_dir_entries(config.root_directory.as_str(), false, 15, true);
        let (discovered, _skipped) = discover_directories(&records, &config);
        let sizes: Vec<u64> = discovered
            .iter()
            .map(|d| calculate_dir_size(d.path.as_str()))
            .collect();
        saturating_sum(&sizes)
    }

    let temp = TempDir::new().unwrap();
    let kept = temp.path().join("app").join("node_modules");
    let excluded = temp.path().join("active-app").join("node_modules");
    fs_err::create_dir_all(&kept).unwrap();
    fs_err::create_dir_all(&excluded).unwrap();
    fs_err::write(kept.join("a.bin"), "12345").unwrap();
    fs_err::write(excluded.join("b.bin"), "1234567").unwrap();

    let mut settings = settings_with_root(temp.path().to_str().unwrap());
    settings.exclude_paths = "*/active-*".to_string();
    assert_eq!(tick_total(&settings), 5);

    settings.exclude_paths = String::new();
    assert_eq!(tick_total(&settings), 12);

    // The saturating sum alone, at and over the limit.
    assert_eq!(saturating_sum(&vec![1, 2, 3]), 6);
    assert_eq!(saturating_sum(&vec![u64::MAX, 1]), u64::MAX);
    assert_eq!(saturating_sum(&vec![u64::MAX - 1, 1]), u64::MAX);
}
