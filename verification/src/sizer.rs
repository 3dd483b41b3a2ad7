//! Sizing one directory: total bytes, file count, latest modification
//! time, and the symlink-only flag for hoisted package layouts.

use vstd::prelude::*;

verus! {

use crate::walkfs::{WalkedEntry, walk_dir_entries};
use crate::fsprobe::get_last_modified_ms;

/// An entry counts toward size and file count when it was readable, its
/// metadata was readable, and it is a regular file.
pub open spec fn counted_file(e: WalkedEntry) -> bool {
    e.ok && e.meta_ok && e.is_file
}

/// The sum of the sizes of the counted files.
pub open spec fn total_file_size(es: Seq<WalkedEntry>) -> int
    decreases es.len(),
{
    if es.len() == 0 {
        0
    } else {
        total_file_size(es.drop_last()) + if counted_file(es.last()) {
            es.last().size_bytes as int
        } else {
            0int
        }
    }
}

/// The number of counted files.
pub open spec fn counted_files(es: Seq<WalkedEntry>) -> int
    decreases es.len(),
{
    if es.len() == 0 {
        0
    } else {
        counted_files(es.drop_last()) + if counted_file(es.last()) {
            1int
        } else {
            0int
        }
    }
}

/// The latest modification time among the counted files, 0 when there is
/// none.
pub open spec fn max_modified(es: Seq<WalkedEntry>) -> int
    decreases es.len(),
{
    if es.len() == 0 {
        0
    } else {
        let rest = max_modified(es.drop_last());
        if counted_file(es.last()) && es.last().modified_ms as int > rest {
            es.last().modified_ms as int
        } else {
            rest
        }
    }
}

/// Some readable entry is a symbolic link.
pub open spec fn any_symlink(es: Seq<WalkedEntry>) -> bool {
    exists|i: int| 0 <= i < es.len() && es[i].ok && es[i].is_symlink
}

/// An integer clamped into `u64`.
pub open spec fn clamp_u64(v: int) -> int {
    if v > u64::MAX {
        u64::MAX as int
    } else {
        v
    }
}

/// With no counted file, the summed size is zero.
pub proof fn lemma_no_files_no_size(es: Seq<WalkedEntry>)
    requires
        counted_files(es) == 0,
    ensures
        total_file_size(es) == 0,
    decreases es.len(),
{
    if es.len() > 0 {
        assert(counted_files(es.drop_last()) >= 0) by {
            lemma_counts_nonneg(es.drop_last());
        }
        lemma_no_files_no_size(es.drop_last());
    }
}

pub proof fn lemma_counts_nonneg(es: Seq<WalkedEntry>)
    ensures
        counted_files(es) >= 0,
        total_file_size(es) >= 0,
        max_modified(es) >= 0,
        counted_files(es) <= es.len(),
    decreases es.len(),
{
    if es.len() > 0 {
        lemma_counts_nonneg(es.drop_last());
    }
}

/// Folds the walk records into `(total size, file count, latest mtime)`.
/// The total saturates at `u64::MAX`; the other two always fit.
pub fn summarize_walk(records: &Vec<WalkedEntry>) -> (r: (u64, usize, u64))
    ensures
        r.0 == clamp_u64(total_file_size(records@)),
        r.1 == counted_files(records@),
        r.2 == max_modified(records@),
{
    let mut total: u64 = 0;
    let mut count: usize = 0;
    let mut mtime: u64 = 0;
    let mut i: usize = 0;
    while i < records.len()
        invariant
            i <= records.len(),
            total == clamp_u64(total_file_size(records@.subrange(0, i as int))),
            count == counted_files(records@.subrange(0, i as int)),
            mtime == max_modified(records@.subrange(0, i as int)),
            count <= i,
        decreases records.len() - i,
    {
        proof {
            assert(records@.subrange(0, i + 1).drop_last() =~= records@.subrange(0, i as int));
            assert(records@.subrange(0, i + 1).last() == records@[i as int]);
            lemma_counts_nonneg(records@.subrange(0, i as int));
        }
        let e = &records[i];
        if e.ok && e.meta_ok && e.is_file {
            if e.size_bytes <= u64::MAX - total {
                total = total + e.size_bytes;
            } else {
                total = u64::MAX;
            }
            count = count + 1;
            if e.modified_ms > mtime {
                mtime = e.modified_ms;
            }
        }
        i = i + 1;
    }
    proof {
        assert(records@.subrange(0, records@.len() as int) =~= records@);
    }
    (total, count, mtime)
}

/// Whether any readable record is a symbolic link.
pub fn walk_has_symlink(records: &Vec<WalkedEntry>) -> (r: bool)
    ensures
        r == any_symlink(records@),
{
    let mut i: usize = 0;
    while i < records.len()
        invariant
            i <= records.len(),
            forall|j: int| 0 <= j < i ==> !(records@[j].ok && records@[j].is_symlink),
        decreases records.len() - i,
    {
        let e = &records[i];
        if e.ok && e.is_symlink {
            return true;
        }
        i = i + 1;
    }
    false
}

/// What sizing one directory reports.
#[derive(Debug, Clone, PartialEq, Eq)]
pub struct DirectorySizeResult {
    pub total_size: u64,
    pub file_count: usize,
    pub has_only_symlinks: bool,
    /// Most recent modification time in milliseconds since the Unix epoch.
    pub last_modified_ms: u64,
}

/// Packages the folded walk answers as a sizing result: the total and
/// count are taken as given, the symlink-only flag holds exactly when no
/// file was counted and a symlink was found, and a tree without any file
/// modification time falls back to the root's own.
pub fn assemble_size_result(
    total: u64,
    count: usize,
    mtime: u64,
    link_found: bool,
    root_mtime: u64,
) -> (r: DirectorySizeResult)
    ensures
        r.total_size == total,
        r.file_count == count,
        r.has_only_symlinks == (count == 0 && link_found),
        r.last_modified_ms == if mtime != 0 {
            mtime
        } else {
            root_mtime
        },
{
    DirectorySizeResult {
        total_size: total,
        file_count: count,
        has_only_symlinks: count == 0 && link_found,
        last_modified_ms: if mtime != 0 {
            mtime
        } else {
            root_mtime
        },
    }
}

/// Total size of a directory in bytes, measured as the full sizer
/// measures it: symbolic links followed, every reachable regular file
/// counted.
pub fn calculate_dir_size(path: &str) -> (r: u64) {
    calculate_dir_size_full(path).total_size
}

/// Total size and file count of a directory, links followed.
pub fn calculate_dir_size_with_count(path: &str) -> (r: (u64, usize)) {
    let full = calculate_dir_size_full(path);
    (full.total_size, full.file_count)
}

/// Sizes one directory tree, following symbolic links so that hoisted
/// package layouts are measured through their links. When no regular file
/// is found, a second pass that does not resolve links looks for any
/// symlink and sets the symlink-only flag; a tree without files reports
/// the root's own modification time.
pub fn calculate_dir_size_full(path: &str) -> (r: DirectorySizeResult)
    ensures
        r.has_only_symlinks ==> r.file_count == 0 && r.total_size == 0,
        r.file_count == 0 ==> r.total_size == 0,
{
    let records = walk_dir_entries(path, true, usize::MAX, false);
    let (total, count, mtime) = summarize_walk(&records);
    let link_found = if count == 0 {
        let link_records = walk_dir_entries(path, false, usize::MAX, false);
        walk_has_symlink(&link_records)
    } else {
        false
    };
    let root_mtime = if mtime == 0 {
        get_last_modified_ms(path)
    } else {
        0
    };
    proof {
        if count == 0 {
            lemma_no_files_no_size(records@);
        }
    }
    assemble_size_result(total, count, mtime, link_found, root_mtime)
}

} // verus!
