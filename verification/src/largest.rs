//! The largest-files helper: the top eight files by size under one
//! directory, largest first.

use vstd::prelude::*;
use vstd::multiset::Multiset;

verus! {

use vstd::string::StrSliceExecFns;
use crate::walkfs::{WalkedEntry, walk_dir_entries};
use crate::sizer::counted_file;
use crate::fsprobe::{path_exists, path_is_dir};

/// How many files the helper reports at most.
pub const MAX_FILES: usize = 8;

/// One file and its size.
#[derive(Debug, Clone)]
pub struct FileEntry {
    pub path: String,
    pub size_bytes: u64,
}

/// The helper's answer: the largest files, and the directory they were
/// found under.
#[derive(Debug, Clone)]
pub struct LargestFilesResult {
    pub files: Vec<FileEntry>,
    pub directory_path: String,
}

/// Files in non-increasing order of size.
pub open spec fn sorted_desc_files(es: Seq<FileEntry>) -> bool {
    forall|i: int, j: int| 0 <= i <= j < es.len() ==> es[i].size_bytes >= es[j].size_bytes
}

/// Any file sequence has a largest-first arrangement.
proof fn lemma_exists_sorted_arrangement(s: Seq<FileEntry>)
    ensures
        exists|t: Seq<FileEntry>|
            #![trigger t.to_multiset()]
            t.to_multiset() == s.to_multiset() && sorted_desc_files(t),
    decreases s.len(),
{
    broadcast use vstd::seq_lib::group_to_multiset_ensures;
    broadcast use vstd::multiset::group_multiset_axioms;

    if s.len() == 0 {
        assert(Seq::<FileEntry>::empty().to_multiset() =~= s.to_multiset());
    } else {
        lemma_exists_sorted_arrangement(s.drop_last());
        let t = choose|t: Seq<FileEntry>|
            #![trigger t.to_multiset()]
            t.to_multiset() == s.drop_last().to_multiset() && sorted_desc_files(t);
        lemma_sorted_insert_exists(t, s.last());
        let u = choose|u: Seq<FileEntry>|
            #![trigger u.to_multiset()]
            u.to_multiset() == t.to_multiset().insert(s.last()) && sorted_desc_files(u);
        assert(s.drop_last().push(s.last()) =~= s);
        assert(u.to_multiset() =~= s.to_multiset());
    }
}

/// A largest-first sequence stays so after one value is placed at its
/// position.
proof fn lemma_sorted_insert_exists(t: Seq<FileEntry>, x: FileEntry)
    requires
        sorted_desc_files(t),
    ensures
        exists|u: Seq<FileEntry>|
            #![trigger u.to_multiset()]
            u.to_multiset() == t.to_multiset().insert(x) && sorted_desc_files(u),
    decreases t.len(),
{
    broadcast use vstd::seq_lib::group_to_multiset_ensures;
    broadcast use vstd::multiset::group_multiset_axioms;

    if t.len() == 0 || x.size_bytes >= t[0].size_bytes {
        let u = t.insert(0, x);
        assert(u.to_multiset() =~= t.to_multiset().insert(x));
        assert(sorted_desc_files(u)) by {
            assert(forall|j: int| 0 < j < u.len() ==> u[j] == t[j - 1]);
        }
    } else {
        let tail = t.drop_first();
        assert(forall|i: int, j: int|
            0 <= i <= j < tail.len() ==> tail[i].size_bytes >= tail[j].size_bytes);
        lemma_sorted_insert_exists(tail, x);
        let v = choose|v: Seq<FileEntry>|
            #![trigger v.to_multiset()]
            v.to_multiset() == tail.to_multiset().insert(x) && sorted_desc_files(v);
        let u = v.insert(0, t[0]);
        assert(tail.insert(0, t[0]) =~= t);
        assert(t.to_multiset() =~= tail.to_multiset().insert(t[0]));
        assert(u.to_multiset() =~= v.to_multiset().insert(t[0]));
        assert(u.to_multiset() =~= t.to_multiset().insert(x));
        // Everything in the recursive arrangement is the inserted value or
        // a tail element, so the head still dominates.
        assert forall|j: int| #![trigger u[j]] 0 < j < u.len() implies u[0].size_bytes
            >= u[j].size_bytes by {
            assert(u[j] == v[j - 1]);
            assert(v.contains(v[j - 1]));
            assert(v.to_multiset().count(v[j - 1]) > 0);
            if v[j - 1] != x {
                assert(tail.to_multiset().count(v[j - 1]) > 0);
                assert(tail.contains(v[j - 1]));
                let w = choose|w: int| 0 <= w < tail.len() && tail[w] == v[j - 1];
                assert(t[w + 1] == v[j - 1]);
            }
        }
        assert(sorted_desc_files(u)) by {
            assert(forall|j: int| 0 < j < u.len() ==> u[j] == v[j - 1]);
        }
    }
}

/// Places a file into a largest-first vector at its position.
fn insert_sorted(files: &mut Vec<FileEntry>, f: FileEntry)
    requires
        sorted_desc_files(old(files)@),
        old(files)@.len() < usize::MAX,
    ensures
        sorted_desc_files(final(files)@),
        final(files)@.len() == old(files)@.len() + 1,
        final(files)@.to_multiset() == old(files)@.to_multiset().insert(f),
        forall|j: int|
            0 <= j < final(files)@.len() ==> final(files)@[j] == f || old(files)@.contains(
                #[trigger] final(files)@[j],
            ),
{
    broadcast use vstd::seq_lib::group_to_multiset_ensures;
    broadcast use vstd::multiset::group_multiset_axioms;

    let ghost before = files@;
    let mut pos: usize = 0;
    while pos < files.len() && files[pos].size_bytes >= f.size_bytes
        invariant
            pos <= files@.len(),
            files@ == before,
            forall|j: int| 0 <= j < pos ==> files@[j].size_bytes >= f.size_bytes,
        decreases files@.len() - pos,
    {
        pos = pos + 1;
    }
    files.insert(pos, f);
    proof {
        assert(files@.to_multiset() =~= before.to_multiset().insert(f));
        assert(sorted_desc_files(files@)) by {
            assert(forall|j: int| pos < j < files@.len() ==> files@[j] == before[j - 1]);
            assert(forall|j: int| 0 <= j < pos ==> files@[j] == before[j]);
        }
        assert forall|j: int|
            0 <= j < files@.len() implies files@[j] == f || before.contains(
                #[trigger] files@[j],
            ) by {
            if j < pos {
                assert(files@[j] == before[j]);
            } else if j > pos {
                assert(files@[j] == before[j - 1]);
            }
        }
    }
}

/// Keeps the largest files, streamed through a bounded vector of at most
/// eight entries: below the bound a file is placed at its position; at
/// the bound a file larger than the current smallest replaces it. The
/// result is the first slice of some sorted arrangement of the input, so
/// nothing kept is smaller than anything dropped.
#[verifier::rlimit(100)]
pub fn select_largest_files(files: Vec<FileEntry>) -> (r: Vec<FileEntry>)
    ensures
        sorted_desc_files(r@),
        r@.len() == if files@.len() < MAX_FILES {
            files@.len() as int
        } else {
            MAX_FILES as int
        },
        exists|s: Seq<FileEntry>|
            #![trigger s.to_multiset()]
            s.to_multiset() == files@.to_multiset() && sorted_desc_files(s) && r@ == s.subrange(
                0,
                r@.len() as int,
            ),
{
    broadcast use vstd::seq_lib::group_to_multiset_ensures;
    broadcast use vstd::multiset::group_multiset_axioms;
    broadcast use vstd::seq_lib::lemma_multiset_commutative;

    let ghost orig = files@;
    let mut work = files;
    let mut out: Vec<FileEntry> = Vec::new();
    let ghost mut dropped: Seq<FileEntry> = Seq::empty();
    while work.len() > 0
        invariant
            sorted_desc_files(out@),
            out@.len() == if orig.len() - work@.len() < MAX_FILES {
                orig.len() - work@.len()
            } else {
                MAX_FILES as int
            },
            out@.to_multiset().add(dropped.to_multiset()).add(work@.to_multiset())
                == orig.to_multiset(),
            dropped.len() > 0 ==> out@.len() == MAX_FILES,
            forall|j: int|
                0 <= j < dropped.len() ==> #[trigger] dropped[j].size_bytes
                    <= out@.last().size_bytes,
        decreases work.len(),
    {
        let ghost pre_work = work@;
        let ghost pre_out = out@;
        let ghost pre_dropped = dropped;
        let f = work.remove(0);
        proof {
            assert(f == pre_work[0]);
            assert(work@ == pre_work.remove(0));
            vstd::seq_lib::to_multiset_remove(pre_work, 0);
            vstd::seq_lib::to_multiset_contains(pre_work, pre_work[0]);
            assert(pre_work.contains(pre_work[0]));
            assert(pre_work.to_multiset().count(pre_work[0]) > 0);
            assert(work@.to_multiset() =~= pre_work.to_multiset().remove(f));
        }
        if out.len() < MAX_FILES {
            insert_sorted(&mut out, f);
            proof {
                assert(out@.to_multiset().add(dropped.to_multiset()).add(work@.to_multiset())
                    =~= orig.to_multiset());
                assert forall|j: int|
                    0 <= j < dropped.len() implies #[trigger] dropped[j].size_bytes
                        <= out@.last().size_bytes by {
                    assert(dropped.len() == 0);
                }
            }
        } else {
            let smallest = out[MAX_FILES - 1].size_bytes;
            if f.size_bytes > smallest {
                let ghost popped = pre_out.last();
                let dropped_file = match out.pop() {
                    Some(d) => d,
                    None => {
                        proof {
                            assert(false);
                        }
                        f.clone()
                    },
                };
                proof {
                    assert(dropped_file == popped);
                    assert(out@ =~= pre_out.remove(pre_out.len() - 1));
                    vstd::seq_lib::to_multiset_remove(pre_out, pre_out.len() - 1);
                    vstd::seq_lib::to_multiset_contains(pre_out, popped);
                    assert(pre_out.contains(popped));
                    assert(pre_out.to_multiset().count(popped) > 0);
                    assert(out@.to_multiset() =~= pre_out.to_multiset().remove(popped));
                }
                let ghost mid_out = out@;
                insert_sorted(&mut out, f);
                proof {
                    dropped = dropped.push(popped);
                    vstd::seq_lib::to_multiset_build(pre_dropped, popped);
                    assert(pre_dropped.push(popped).to_multiset()
                        =~= pre_dropped.to_multiset().insert(popped));
                    assert(out@.to_multiset().add(dropped.to_multiset()).add(work@.to_multiset())
                        =~= orig.to_multiset());
                    // Every kept file is the newcomer or survived the pop,
                    // so none is below the replaced smallest.
                    assert forall|j: int|
                        0 <= j < out@.len() implies #[trigger] out@[j].size_bytes
                            >= popped.size_bytes by {
                        if out@[j] != f {
                            assert(mid_out.contains(out@[j]));
                            let w = choose|w: int| 0 <= w < mid_out.len() && mid_out[w] == out@[j];
                            assert(mid_out[w] == pre_out[w]);
                        }
                    }
                    assert forall|j: int|
                        0 <= j < dropped.len() implies #[trigger] dropped[j].size_bytes
                            <= out@.last().size_bytes by {
                        assert(out@.last().size_bytes >= popped.size_bytes);
                        if j < pre_dropped.len() {
                            assert(pre_dropped[j].size_bytes <= pre_out.last().size_bytes);
                        }
                    }
                }
            } else {
                proof {
                    dropped = dropped.push(f);
                    vstd::seq_lib::to_multiset_build(pre_dropped, f);
                    assert(out@.to_multiset().add(dropped.to_multiset()).add(work@.to_multiset())
                        =~= orig.to_multiset());
                    assert forall|j: int|
                        0 <= j < dropped.len() implies #[trigger] dropped[j].size_bytes
                            <= out@.last().size_bytes by {
                        assert(out@.last() == out@[MAX_FILES - 1]);
                    }
                }
            }
        }
    }
    proof {
        assert(work@.to_multiset() =~= Multiset::<FileEntry>::empty());
        assert(out@.to_multiset().add(dropped.to_multiset()) =~= orig.to_multiset());
        lemma_exists_sorted_arrangement(dropped);
        let td = choose|td: Seq<FileEntry>|
            #![trigger td.to_multiset()]
            td.to_multiset() == dropped.to_multiset() && sorted_desc_files(td);
        let s = out@ + td;
        assert(s.to_multiset() =~= orig.to_multiset());
        assert(sorted_desc_files(s)) by {
            assert forall|i: int, j: int|
                0 <= i <= j < s.len() implies s[i].size_bytes >= s[j].size_bytes by {
                if i < out@.len() && j >= out@.len() {
                    let d = td[j - out@.len()];
                    assert(td.contains(d));
                    assert(td.to_multiset().count(d) > 0);
                    assert(dropped.contains(d));
                    let w = choose|w: int| 0 <= w < dropped.len() && dropped[w] == d;
                    assert(dropped[w].size_bytes <= out@.last().size_bytes);
                    assert(out@[i].size_bytes >= out@.last().size_bytes);
                } else if i >= out@.len() {
                    assert(s[i] == td[i - out@.len()]);
                    assert(s[j] == td[j - out@.len()]);
                }
            }
        }
        assert(out@ == s.subrange(0, out@.len() as int)) by {
            assert(out@ =~= s.subrange(0, out@.len() as int));
        }
    }
    out
}

/// The counted file records of a walk, as file entries, in walk order.
pub open spec fn file_entries_of(es: Seq<WalkedEntry>) -> Seq<FileEntry>
    decreases es.len(),
{
    if es.len() == 0 {
        Seq::<FileEntry>::empty()
    } else {
        let rest = file_entries_of(es.drop_last());
        if counted_file(es.last()) {
            rest.push(FileEntry { path: es.last().path, size_bytes: es.last().size_bytes })
        } else {
            rest
        }
    }
}

/// Extracts exactly the counted file records of a walk — readable regular
/// files with readable metadata — as file entries, in order.
pub fn collect_file_entries(records: &Vec<WalkedEntry>) -> (r: Vec<FileEntry>)
    ensures
        r@ == file_entries_of(records@),
{
    let mut files: Vec<FileEntry> = Vec::new();
    let mut i: usize = 0;
    while i < records.len()
        invariant
            i <= records.len(),
            files@ == file_entries_of(records@.subrange(0, i as int)),
        decreases records.len() - i,
    {
        proof {
            assert(records@.subrange(0, i + 1).drop_last() =~= records@.subrange(0, i as int));
            assert(records@.subrange(0, i + 1).last() == records@[i as int]);
        }
        let e = &records[i];
        if e.ok && e.meta_ok && e.is_file {
            files.push(FileEntry { path: e.path.clone(), size_bytes: e.size_bytes });
            proof {
                assert(files@.last() == FileEntry {
                    path: records@[i as int].path,
                    size_bytes: records@[i as int].size_bytes,
                });
                assert(files@ =~= file_entries_of(records@.subrange(0, i + 1)));
            }
        }
        i = i + 1;
    }
    proof {
        assert(records@.subrange(0, records@.len() as int) =~= records@);
    }
    files
}

/// Decides from the two existence probes whether the helper can run; each
/// failing probe yields its own fixed message, the missing path first.
pub fn classify_largest_target(exists: bool, is_directory: bool) -> (r: Result<(), String>)
    ensures
        r is Ok <==> (exists && is_directory),
        !exists ==> (r matches Err(m) && m@ == "Directory does not exist"@),
        exists && !is_directory ==> (r matches Err(m) && m@ == "Path is not a directory"@),
{
    if !exists {
        return Err("Directory does not exist".to_owned());
    }
    if !is_directory {
        return Err("Path is not a directory".to_owned());
    }
    Ok(())
}

/// Finds the largest files under `path`: the counted files of one walk,
/// reduced to the top eight largest first, with the directory echoed
/// back. A missing path or a non-directory is reported with its fixed
/// message.
pub fn get_largest_files(path: &str) -> (r: Result<LargestFilesResult, String>)
    ensures
        match r {
            Ok(res) => sorted_desc_files(res.files@) && res.files@.len() <= MAX_FILES
                && res.directory_path@ == path@,
            Err(m) => m@ == "Directory does not exist"@ || m@ == "Path is not a directory"@,
        },
{
    match classify_largest_target(path_exists(path), path_is_dir(path)) {
        Ok(()) => {},
        Err(m) => {
            return Err(m);
        },
    }
    let records = walk_dir_entries(path, false, usize::MAX, false);
    let files = collect_file_entries(&records);
    let top = select_largest_files(files);
    Ok(LargestFilesResult { files: top, directory_path: path.to_owned() })
}

} // verus!
