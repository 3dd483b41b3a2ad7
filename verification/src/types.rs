//! The values that flow through a scan: discovered directories, sized
//! entries, progress snapshots, and the final summary.

use vstd::prelude::*;

verus! {

use crate::taxonomy::DependencyCategory;

/// A directory found during discovery, before it is sized.
#[derive(Debug, Clone)]
pub struct DiscoveredDirectory {
    pub path: String,
    pub category: DependencyCategory,
}

/// One sized dependency directory.
#[derive(Debug, Clone)]
pub struct DirectoryEntry {
    pub path: String,
    pub size_bytes: u64,
    pub file_count: usize,
    pub last_modified_ms: u64,
    pub category: DependencyCategory,
    /// The directory holds only symlinks and no regular file, as happens
    /// with hoisted layouts whose links point outside the directory.
    pub has_only_symlinks: bool,
}

/// The final outcome of a scan.
#[derive(Debug, Clone)]
pub struct ScanResult {
    pub entries: Vec<DirectoryEntry>,
    pub total_size: u64,
    pub scan_time_ms: u128,
    pub skipped_count: usize,
}

/// A throttled progress snapshot during discovery.
#[derive(Debug, Clone)]
pub struct ScanStats {
    pub total_size: u64,
    pub directory_count: usize,
    pub current_path: Option<String>,
}

/// What a sizing worker reports for one directory.
#[derive(Debug, Clone)]
pub struct SizeCalculationResult {
    pub path: String,
    pub category: DependencyCategory,
    pub total_size: u64,
    pub file_count: usize,
    pub last_modified_ms: u64,
    pub has_only_symlinks: bool,
}

/// What re-measuring one directory reports.
#[derive(Debug, Clone)]
pub struct RescanResult {
    pub exists: bool,
    pub entry: Option<DirectoryEntry>,
}

} // verus!
