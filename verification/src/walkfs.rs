//! The trusted boundary around the directory walker. A walk hands back
//! opaque items which small trusted accessors reduce to plain values; the
//! verified `walk_dir_entries` assembles one plain record per entry, and
//! everything proved about scanning is proved over those records.

use vstd::prelude::*;

verus! {

use crate::pathutil::should_skip_directory;
use crate::scan::JWALK_BUSY_TIMEOUT_MS;

/// One entry yielded by a walk, reduced to plain values.
#[derive(Clone, Debug)]
pub struct WalkedEntry {
    /// The walker could read this entry; a failed read yields a record
    /// with every other field empty.
    pub ok: bool,
    /// The entry's metadata could be read.
    pub meta_ok: bool,
    pub path: String,
    pub name: String,
    pub is_dir: bool,
    pub is_file: bool,
    pub is_symlink: bool,
    pub size_bytes: u64,
    pub modified_ms: u64,
}

/// One raw walk result, opaque to the verifier; jwalk's entry type carries
/// a trait bound the verifier does not take, so the value is held behind
/// this struct and read through the accessors below.
#[verifier::external_body]
struct WalkItem {
    inner: Result<jwalk::DirEntry<((), ())>, jwalk::Error>,
}

/// Relies on jwalk::WalkDir: walks the tree under `root` (hidden entries
/// included, depth bounded by `max_depth`, links followed only when
/// asked, the skip set pruned per level through the verified
/// `should_skip_directory` only when asked) and returns every yielded
/// entry. A pruned walk — discovery and the background tick — runs on the
/// shared worker pool with the idle-worker wait; a sizing walk stays
/// serial. What is on disk decides the contents; nothing is promised.
#[verifier::external_body]
fn walk_dir_items(root: &str, follow_links: bool, max_depth: usize, prune: bool) -> (r: Vec<
    WalkItem,
>) {
    let busy = std::time::Duration::from_millis(JWALK_BUSY_TIMEOUT_MS);
    let parallelism =
        if prune { jwalk::Parallelism::RayonDefaultPool { busy_timeout: busy } }
        else { jwalk::Parallelism::Serial };
    let mut walker = jwalk::WalkDir::new(root).skip_hidden(false)
        .follow_links(follow_links).max_depth(max_depth).parallelism(parallelism);
    if prune {
        walker = walker.process_read_dir(|_, _, _, children| {
            children.retain(|c| match c {
                Ok(e) => e.file_name().to_str().map(|n| !should_skip_directory(n)).unwrap_or(true),
                Err(_) => true,
            });
        });
    }
    walker.into_iter().map(|entry| WalkItem { inner: entry }).collect()
}

/// Relies on jwalk::DirEntry's path, file_name and file_type accessors:
/// whether the entry was readable, its path and basename, and whether it
/// is a directory or a symbolic link. The disk decides; nothing is
/// promised.
#[verifier::external_body]
fn item_basic(item: &WalkItem) -> (r: (bool, String, String, bool, bool)) {
    match &item.inner {
        Ok(e) => (true, e.path().to_string_lossy().into_owned(),
            e.file_name().to_str().unwrap_or("").to_string(),
            e.file_type().is_dir(), e.file_type().is_symlink()),
        Err(_) => (false, String::new(), String::new(), false, false),
    }
}

/// Relies on jwalk::DirEntry::metadata and std::fs::Metadata accessors:
/// whether metadata was readable, whether the entry is a regular file, its
/// length, and its modification time in milliseconds since the Unix epoch
/// (0 when unavailable). The disk decides; nothing is promised.
#[verifier::external_body]
fn item_meta(item: &WalkItem) -> (r: (bool, bool, u64, u64)) {
    match &item.inner {
        Ok(e) => match e.metadata() {
            Ok(m) => (true, m.is_file(), m.len(), m.modified().ok()
                .and_then(|t| t.duration_since(std::time::UNIX_EPOCH).ok())
                .map(|d| d.as_millis() as u64).unwrap_or(0)),
            Err(_) => (false, false, 0, 0),
        },
        Err(_) => (false, false, 0, 0),
    }
}

/// Walks the tree under `root` and returns one plain record per entry the
/// walker yielded. The records' contents come from the disk through the
/// trusted accessors above; nothing is promised of them.
pub fn walk_dir_entries(root: &str, follow_links: bool, max_depth: usize, prune: bool) -> (r: Vec<
    WalkedEntry,
>) {
    let items = walk_dir_items(root, follow_links, max_depth, prune);
    let mut out: Vec<WalkedEntry> = Vec::new();
    let mut i: usize = 0;
    while i < items.len()
        decreases items.len() - i,
    {
        let (ok, path, name, is_dir, is_symlink) = item_basic(&items[i]);
        let (meta_ok, is_file, size_bytes, modified_ms) = item_meta(&items[i]);
        out.push(WalkedEntry {
            ok,
            meta_ok,
            path,
            name,
            is_dir,
            is_file,
            is_symlink,
            size_bytes,
            modified_ms,
        });
        i = i + 1;
    }
    out
}

} // verus!
