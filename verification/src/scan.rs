//! The scan's verified core: the discovery filter applied to walk
//! records, category resolution in path context, the re-measure of a
//! single directory, and the final sorting and summing of sized entries.

use vstd::prelude::*;
use vstd::multiset::Multiset;

verus! {

use vstd::string::StrSliceExecFns;
use vstd::string::StringExecFns;
use crate::strutil::str_eq;
use crate::pathutil::{
    component_in, string_vec_contains, nested_in_dependency, is_inside_dependency_directory,
    basename, basename_spec, expand_tilde,
};
use crate::pattern::{wildcard_match, should_exclude_path, parse_patterns_spec,
    parse_exclude_patterns};
use crate::taxonomy::{
    DependencyCategory, category_from_name, category_dir_names, name_enabled, all_categories,
    gate_marker_category, get_target_directory_names, get_all_dependency_directory_names,
};
use crate::settings::AppSettings;
use crate::walkfs::{WalkedEntry, walk_dir_entries};
use crate::sizer::{calculate_dir_size_full, clamp_u64};
use crate::fsprobe::{path_exists, path_is_dir};
use crate::types::{
    DiscoveredDirectory, DirectoryEntry, ScanResult, SizeCalculationResult, RescanResult,
};

/// Deepest directory level the walk descends to; the root is level 0.
pub const MAX_SCAN_DEPTH: usize = 15;

/// Upper bound on sizing worker threads.
pub const SIZE_POOL_THREADS: usize = 8;

/// Progress snapshots are emitted at most once per this many milliseconds.
pub const EMIT_THROTTLE_MS: u64 = 50;

/// Idle-worker wait inside the parallel walker, in milliseconds.
pub const JWALK_BUSY_TIMEOUT_MS: u64 = 100;

/// How long a new scan waits for the previous one to wind down, in seconds.
pub const PREVIOUS_SCAN_TIMEOUT_SECS: u64 = 2;

/// How long the controller waits for one sizing result, in seconds.
pub const RESULT_TIMEOUT_SECS: u64 = 30;

/// Consecutive result timeouts tolerated before sizing is abandoned.
pub const MAX_TIMEOUT_RETRIES: usize = 3;

/// Everything the discovery filter needs, derived from the settings.
pub struct ScanConfig {
    pub root_directory: String,
    pub enabled_categories: Vec<DependencyCategory>,
    pub target_dir_names: Vec<String>,
    pub all_dependency_dirs: Vec<String>,
    pub exclude_patterns: Vec<String>,
}

impl ScanConfig {
    /// The name tables agree with the category lists they were built from.
    pub open spec fn wf(&self) -> bool {
        &&& forall|n: Seq<char>|
            component_in(self.target_dir_names.deep_view(), n) <==> name_enabled(
                self.enabled_categories@,
                n,
            )
        &&& forall|n: Seq<char>|
            component_in(self.all_dependency_dirs.deep_view(), n) <==> name_enabled(
                all_categories(),
                n,
            )
    }

    /// Derives the scan configuration from the settings: the root with its
    /// tilde expanded, the enabled categories with their target names, all
    /// dependency names for nesting checks, and the parsed exclude
    /// patterns.
    pub fn from_settings(settings: &AppSettings) -> (r: ScanConfig)
        ensures
            r.wf(),
            r.enabled_categories@ == settings.enabled_categories@,
            r.exclude_patterns.deep_view() == parse_patterns_spec(settings.exclude_paths@),
            !(settings.root_directory@.len() > 0 && settings.root_directory@[0] == '~')
                ==> r.root_directory@ == settings.root_directory@,
    {
        let enabled = settings.enabled_categories.clone();
        let target_dir_names = get_target_directory_names(&enabled);
        let all_dependency_dirs = get_all_dependency_directory_names();
        let exclude_patterns = parse_exclude_patterns(settings.exclude_paths.as_str());
        ScanConfig {
            root_directory: expand_tilde(settings.root_directory.as_str()),
            enabled_categories: enabled,
            target_dir_names,
            all_dependency_dirs,
            exclude_patterns,
        }
    }
}

/// `category_from_name` never resolves a name outside the category's own
/// directory names.
proof fn lemma_from_name_in_names(n: Seq<char>)
    ensures
        category_from_name(n) matches Some(c) ==> category_dir_names(c).contains(n),
{
    if category_from_name(n) is Some {
        let c = category_from_name(n)->Some_0;
        if n == "node_modules"@ {
            assert(category_dir_names(c)[0] == n);
        } else if n == "Pods"@ {
            assert(category_dir_names(c)[0] == n);
        } else if n == ".venv"@ {
            assert(category_dir_names(c)[0] == n);
        } else if n == "venv"@ {
            assert(category_dir_names(c)[1] == n);
        } else if n == ".dart_tool"@ {
            assert(category_dir_names(c)[0] == n);
        }
    }
}

/// Resolves a basename to its category in path context: unambiguous names
/// resolve directly; `vendor`, `deps` and `pkg` are resolved by their
/// marker files and kept only when the resolved category is enabled.
pub fn determine_category(
    directory_name: &str,
    path: &str,
    enabled_categories: &Vec<DependencyCategory>,
) -> (r: Option<DependencyCategory>)
    ensures
        category_from_name(directory_name@) matches Some(c) ==> r == Some(c),
        r matches Some(c) ==> category_dir_names(c).contains(directory_name@),
        match r {
            Some(c) => category_from_name(directory_name@) is None
                ==> enabled_categories@.contains(c),
            None => true,
        },
{
    proof {
        lemma_from_name_in_names(directory_name@);
    }
    match DependencyCategory::from_directory_name(directory_name) {
        Some(matched_category) => Some(matched_category),
        None => {
            if str_eq(directory_name, "vendor") {
                let marker_answer = DependencyCategory::from_vendor_directory(path);
                let r = gate_marker_category(marker_answer, enabled_categories);
                proof {
                    if r is Some {
                        assert(category_dir_names(r->Some_0)[0] == directory_name@);
                    }
                }
                r
            } else if str_eq(directory_name, "deps") {
                let marker_answer = DependencyCategory::from_deps_directory(path);
                let r = gate_marker_category(marker_answer, enabled_categories);
                proof {
                    if r is Some {
                        assert(category_dir_names(r->Some_0)[0] == directory_name@);
                    }
                }
                r
            } else if str_eq(directory_name, "pkg") {
                let marker_answer = DependencyCategory::from_pkg_directory(path);
                let r = gate_marker_category(marker_answer, enabled_categories);
                proof {
                    if r is Some {
                        assert(category_dir_names(r->Some_0)[0] == directory_name@);
                    }
                }
                r
            } else {
                None
            }
        },
    }
}

/// Some exclude pattern matches the path.
pub open spec fn path_excluded(path: Seq<char>, patterns: Seq<Seq<char>>) -> bool {
    exists|i: int| 0 <= i < patterns.len() && wildcard_match(path, patterns[i])
}

/// What the discovery filter guarantees of everything it emits: the
/// record was a readable directory, the emitted path is the record's, the
/// category owns the record's basename, the basename is one an enabled
/// category may present as — and for a marker-resolved category, the
/// category itself is enabled — and the directory is neither nested in
/// another dependency root nor excluded.
pub open spec fn discovery_yields(e: WalkedEntry, cfg: ScanConfig, d: DiscoveredDirectory) -> bool {
    &&& e.ok && e.is_dir
    &&& d.path@ == e.path@
    &&& category_dir_names(d.category).contains(e.name@)
    &&& name_enabled(cfg.enabled_categories@, e.name@)
    &&& category_from_name(e.name@) is None ==> cfg.enabled_categories@.contains(d.category)
    &&& !nested_in_dependency(e.path@, e.name@, cfg.all_dependency_dirs.deep_view())
    &&& !path_excluded(e.path@, cfg.exclude_patterns.deep_view())
}

/// A record that must be emitted: a readable directory whose basename
/// resolves without marker inspection to an enabled category, neither
/// nested nor excluded.
pub open spec fn plainly_passes(e: WalkedEntry, cfg: ScanConfig) -> bool {
    &&& e.ok && e.is_dir
    &&& category_from_name(e.name@) is Some
    &&& name_enabled(cfg.enabled_categories@, e.name@)
    &&& !nested_in_dependency(e.path@, e.name@, cfg.all_dependency_dirs.deep_view())
    &&& !path_excluded(e.path@, cfg.exclude_patterns.deep_view())
}

/// Applies the discovery filter to one walk record.
pub fn discover_dependency_directory(entry: &WalkedEntry, config: &ScanConfig) -> (r: Option<
    DiscoveredDirectory,
>)
    requires
        config.wf(),
    ensures
        r matches Some(d) ==> discovery_yields(*entry, *config, d),
        plainly_passes(*entry, *config) ==> r is Some,
        match r {
            Some(d) => category_from_name(entry.name@) matches Some(c) ==> d.category == c,
            None => true,
        },
{
    if !entry.ok || !entry.is_dir {
        return None;
    }
    if !string_vec_contains(&config.target_dir_names, entry.name.as_str()) {
        proof {
            lemma_from_name_in_names(entry.name@);
        }
        return None;
    }
    let category = match determine_category(
        entry.name.as_str(),
        entry.path.as_str(),
        &config.enabled_categories,
    ) {
        Some(c) => c,
        None => {
            return None;
        },
    };
    if is_inside_dependency_directory(
        entry.path.as_str(),
        entry.name.as_str(),
        &config.all_dependency_dirs,
    ) {
        return None;
    }
    if should_exclude_path(entry.path.as_str(), &config.exclude_patterns) {
        return None;
    }
    Some(DiscoveredDirectory { path: entry.path.clone(), category })
}

/// The number of unreadable records.
pub open spec fn error_count(es: Seq<WalkedEntry>) -> int
    decreases es.len(),
{
    if es.len() == 0 {
        0
    } else {
        error_count(es.drop_last()) + if !es.last().ok {
            1int
        } else {
            0int
        }
    }
}

proof fn lemma_error_count_bounds(es: Seq<WalkedEntry>)
    ensures
        0 <= error_count(es) <= es.len(),
    decreases es.len(),
{
    if es.len() > 0 {
        lemma_error_count_bounds(es.drop_last());
    }
}

/// What holds of everything discovery emits: some dependency name of the
/// assigned category is the basename under which the directory was
/// accepted, that name is one an enabled category may present as, the
/// directory is not nested inside another dependency root under that
/// name, and no exclude pattern matches its path.
pub open spec fn discovered_sound(d: DiscoveredDirectory, cfg: ScanConfig) -> bool {
    exists|nm: Seq<char>|
        #![trigger category_dir_names(d.category).contains(nm)]
        category_dir_names(d.category).contains(nm) && name_enabled(cfg.enabled_categories@, nm)
            && !nested_in_dependency(d.path@, nm, cfg.all_dependency_dirs.deep_view())
            && !path_excluded(d.path@, cfg.exclude_patterns.deep_view())
}

/// Some emitted directory carries the path `p`.
pub open spec fn emits_path(ds: Seq<DiscoveredDirectory>, p: Seq<char>) -> bool {
    exists|k: int| 0 <= k < ds.len() && ds[k].path@ == p
}

/// The emissions `ds` come from the records at the strictly increasing
/// positions `src`, one emission per record at most, each satisfying the
/// filter's guarantee.
pub open spec fn emitted_from(
    records: Seq<WalkedEntry>,
    cfg: ScanConfig,
    ds: Seq<DiscoveredDirectory>,
    src: Seq<int>,
) -> bool {
    &&& src.len() == ds.len()
    &&& forall|k: int|
        0 <= k < src.len() ==> 0 <= #[trigger] src[k] < records.len() && discovery_yields(
            records[src[k]],
            cfg,
            ds[k],
        )
    &&& forall|k1: int, k2: int| 0 <= k1 < k2 < src.len() ==> src[k1] < src[k2]
}

/// The emissions come from distinct records in walk order: each record
/// yields at most one emission.
pub open spec fn has_emission_witness(
    records: Seq<WalkedEntry>,
    cfg: ScanConfig,
    ds: Seq<DiscoveredDirectory>,
) -> bool {
    exists|src: Seq<int>| #[trigger] emitted_from(records, cfg, ds, src)
}

/// Runs the discovery filter over every walk record. Everything emitted
/// satisfies `discovered_sound` — in particular, nothing nested inside
/// another dependency root is emitted — and every record that plainly
/// passes is emitted, so sibling roots of one monorepo all appear.
/// Unreadable records are only counted.
#[verifier::rlimit(50)]
pub fn discover_directories(records: &Vec<WalkedEntry>, config: &ScanConfig) -> (r: (Vec<
    DiscoveredDirectory,
>, usize))
    requires
        config.wf(),
    ensures
        forall|k: int|
            #![trigger r.0@[k]]
            0 <= k < r.0@.len() ==> discovered_sound(r.0@[k], *config),
        has_emission_witness(records@, *config, r.0@),
        r.1 == error_count(records@),
        forall|i: int|
            #![trigger records@[i]]
            0 <= i < records@.len() && plainly_passes(records@[i], *config) ==> emits_path(
                r.0@,
                records@[i].path@,
            ),
{
    let mut out: Vec<DiscoveredDirectory> = Vec::new();
    let ghost mut srcs: Seq<int> = Seq::empty();
    let mut skipped: usize = 0;
    let mut idx: usize = 0;
    while idx < records.len()
        invariant
            idx <= records.len(),
            config.wf(),
            skipped == error_count(records@.subrange(0, idx as int)),
            skipped <= idx,
            emitted_from(records@, *config, out@, srcs),
            forall|k: int| 0 <= k < srcs.len() ==> #[trigger] srcs[k] < idx,
            forall|k: int|
                #![trigger out@[k]]
                0 <= k < out@.len() ==> discovered_sound(out@[k], *config),
            forall|i: int|
                #![trigger records@[i]]
                0 <= i < idx && plainly_passes(records@[i], *config) ==> emits_path(
                    out@,
                    records@[i].path@,
                ),
        decreases records.len() - idx,
    {
        proof {
            assert(records@.subrange(0, idx + 1).drop_last() =~= records@.subrange(0, idx as int));
            assert(records@.subrange(0, idx + 1).last() == records@[idx as int]);
            lemma_error_count_bounds(records@.subrange(0, idx as int));
        }
        let entry = &records[idx];
        if !entry.ok {
            skipped = skipped + 1;
        } else {
            let ghost before = out@;
            match discover_dependency_directory(entry, config) {
                Some(discovered) => {
                    let ghost d = discovered;
                    let ghost before_srcs = srcs;
                    out.push(discovered);
                    proof {
                        srcs = srcs.push(idx as int);
                        assert(out@ == before.push(d));
                        assert(emitted_from(records@, *config, out@, srcs)) by {
                            assert forall|k: int| 0 <= k < srcs.len() implies 0 <= #[trigger] srcs[k]
                                < records@.len() && discovery_yields(
                                records@[srcs[k]],
                                *config,
                                out@[k],
                            ) by {
                                if k < before_srcs.len() {
                                    assert(srcs[k] == before_srcs[k]);
                                    assert(out@[k] == before[k]);
                                } else {
                                    assert(srcs[k] == idx as int);
                                    assert(out@[k] == d);
                                    assert(discovery_yields(records@[idx as int], *config, d));
                                }
                            }
                        }
                        assert(discovered_sound(d, *config)) by {
                            let e = records@[idx as int];
                            assert(discovery_yields(e, *config, d));
                            assert(category_dir_names(d.category).contains(e.name@));
                        }
                        assert forall|k: int|
                            #![trigger out@[k]]
                            0 <= k < out@.len() implies discovered_sound(out@[k], *config) by {
                            if k < before.len() {
                                assert(out@[k] == before[k]);
                            } else {
                                assert(out@[k] == d);
                            }
                        }
                        assert forall|i: int|
                            #![trigger records@[i]]
                            0 <= i < idx + 1 && plainly_passes(records@[i], *config)
                            implies emits_path(out@, records@[i].path@) by {
                            if i < idx {
                                let k = choose|k: int|
                                    0 <= k < before.len() && before[k].path@ == records@[i].path@;
                                assert(out@[k].path@ == records@[i].path@);
                            } else {
                                assert(out@[out@.len() - 1].path@ == records@[i].path@);
                            }
                        }
                    }
                },
                None => {},
            }
        }
        idx = idx + 1;
    }
    proof {
        assert(records@.subrange(0, records@.len() as int) =~= records@);
        assert(has_emission_witness(records@, *config, out@)) by {
            assert(emitted_from(records@, *config, out@, srcs));
        }
    }
    (out, skipped)
}

/// Counts one more consecutive sizing-result timeout and decides whether
/// sizing is abandoned: exactly at the tolerated limit.
pub fn register_result_timeout(timeouts: usize) -> (r: (usize, bool))
    requires
        timeouts < usize::MAX,
    ensures
        r.0 == timeouts + 1,
        r.1 == (timeouts + 1 >= MAX_TIMEOUT_RETRIES),
{
    let next = timeouts + 1;
    (next, next >= MAX_TIMEOUT_RETRIES)
}

/// Entries in non-increasing order of size.
pub open spec fn sorted_desc(es: Seq<DirectoryEntry>) -> bool {
    forall|i: int, j: int| 0 <= i <= j < es.len() ==> es[i].size_bytes >= es[j].size_bytes
}

/// The sum of the entries' sizes.
pub open spec fn sum_entry_sizes(es: Seq<DirectoryEntry>) -> int
    decreases es.len(),
{
    if es.len() == 0 {
        0
    } else {
        sum_entry_sizes(es.drop_last()) + es.last().size_bytes as int
    }
}

/// Sorts entries by size, largest first, keeping exactly the given
/// entries.
#[verifier::rlimit(50)]
pub fn sort_entries_desc(entries: Vec<DirectoryEntry>) -> (r: Vec<DirectoryEntry>)
    ensures
        sorted_desc(r@),
        r@.to_multiset() == entries@.to_multiset(),
{
    broadcast use vstd::seq_lib::group_to_multiset_ensures;
    broadcast use vstd::multiset::group_multiset_axioms;

    let mut work = entries;
    let ghost orig = work@;
    let mut out: Vec<DirectoryEntry> = Vec::new();
    while work.len() > 0
        invariant
            out@.to_multiset().add(work@.to_multiset()) == orig.to_multiset(),
            sorted_desc(out@),
            forall|i: int, j: int|
                0 <= i < out@.len() && 0 <= j < work@.len() ==> out@[i].size_bytes
                    >= work@[j].size_bytes,
        decreases work.len(),
    {
        // Find the largest remaining entry.
        let mut m: usize = 0;
        let mut t: usize = 1;
        while t < work.len()
            invariant
                m < t <= work.len(),
                work@.len() > 0,
                forall|j: int| 0 <= j < t ==> work@[m as int].size_bytes >= work@[j].size_bytes,
            decreases work.len() - t,
        {
            if work[t].size_bytes > work[m].size_bytes {
                m = t;
            }
            t = t + 1;
        }
        let ghost pre_work = work@;
        let ghost pre_out = out@;
        let picked = work.remove(m);
        out.push(picked);
        proof {
            assert(work@ == pre_work.remove(m as int));
            assert(out@ == pre_out.push(picked));
            vstd::seq_lib::to_multiset_build(pre_out, picked);
            vstd::seq_lib::to_multiset_remove(pre_work, m as int);
            assert(pre_out.push(picked).to_multiset() =~= pre_out.to_multiset().insert(picked));
            assert(pre_work.remove(m as int).to_multiset() =~= pre_work.to_multiset().remove(
                pre_work[m as int],
            ));
            vstd::seq_lib::to_multiset_contains(pre_work, pre_work[m as int]);
            assert(pre_work.contains(pre_work[m as int])) by {
                assert(0 <= m < pre_work.len());
            }
            assert(pre_work.to_multiset().count(pre_work[m as int]) > 0);
            assert(out@.to_multiset().add(work@.to_multiset()) =~= pre_out.to_multiset().add(
                pre_work.to_multiset(),
            ));
            assert(forall|j: int|
                0 <= j < work@.len() ==> picked.size_bytes >= work@[j].size_bytes) by {
                assert(forall|j: int|
                    0 <= j < work@.len() ==> work@[j] == if j < m as int {
                        pre_work[j]
                    } else {
                        pre_work[j + 1]
                    });
            }
        }
    }
    proof {
        assert(work@.to_multiset() =~= Multiset::<DirectoryEntry>::empty());
        assert(out@.to_multiset() =~= orig.to_multiset());
    }
    out
}

/// Packages one sizing result as a directory entry, field for field.
pub fn entry_from_result(result: &SizeCalculationResult) -> (r: DirectoryEntry)
    ensures
        r.path@ == result.path@,
        r.size_bytes == result.total_size,
        r.file_count == result.file_count,
        r.last_modified_ms == result.last_modified_ms,
        r.category == result.category,
        r.has_only_symlinks == result.has_only_symlinks,
{
    DirectoryEntry {
        path: result.path.clone(),
        size_bytes: result.total_size,
        file_count: result.file_count,
        last_modified_ms: result.last_modified_ms,
        category: result.category,
        has_only_symlinks: result.has_only_symlinks,
    }
}

/// Assembles the final scan summary: the entries sorted largest first,
/// the total equal to the sum of their sizes (saturating at `u64::MAX`),
/// and the counts passed through.
pub fn finalize_scan(entries: Vec<DirectoryEntry>, skipped_count: usize, scan_time_ms: u128) -> (r:
    ScanResult)
    ensures
        sorted_desc(r.entries@),
        r.entries@.to_multiset() == entries@.to_multiset(),
        r.total_size == clamp_u64(sum_entry_sizes(r.entries@)),
        sum_entry_sizes(r.entries@) <= u64::MAX ==> r.total_size == sum_entry_sizes(r.entries@),
        r.skipped_count == skipped_count,
        r.scan_time_ms == scan_time_ms,
{
    let sorted = sort_entries_desc(entries);
    let mut total: u64 = 0;
    let mut i: usize = 0;
    while i < sorted.len()
        invariant
            i <= sorted.len(),
            total == clamp_u64(sum_entry_sizes(sorted@.subrange(0, i as int))),
        decreases sorted.len() - i,
    {
        proof {
            assert(sorted@.subrange(0, i + 1).drop_last() =~= sorted@.subrange(0, i as int));
            assert(sorted@.subrange(0, i + 1).last() == sorted@[i as int]);
            lemma_sum_nonneg(sorted@.subrange(0, i as int));
        }
        let sz = sorted[i].size_bytes;
        if sz <= u64::MAX - total {
            total = total + sz;
        } else {
            total = u64::MAX;
        }
        i = i + 1;
    }
    proof {
        assert(sorted@.subrange(0, sorted@.len() as int) =~= sorted@);
    }
    ScanResult { entries: sorted, total_size: total, scan_time_ms, skipped_count }
}

proof fn lemma_sum_nonneg(es: Seq<DirectoryEntry>)
    ensures
        sum_entry_sizes(es) >= 0,
    decreases es.len(),
{
    if es.len() > 0 {
        lemma_sum_nonneg(es.drop_last());
    }
}

/// Decides from the two existence probes whether a re-measure can
/// proceed: the absent answer comes exactly when the path is missing or
/// is not a directory.
pub fn classify_rescan_target(exists: bool, is_directory: bool) -> (r: Option<RescanResult>)
    ensures
        (exists && is_directory) <==> r is None,
        !(exists && is_directory) <==> (r matches Some(rr) && !rr.exists && rr.entry is None),
{
    if exists && is_directory {
        None
    } else {
        Some(RescanResult { exists: false, entry: None })
    }
}

/// Packages one sizing answer as the entry for `path`, field for field.
pub fn entry_from_size_result(
    path: &str,
    category: DependencyCategory,
    sized: &crate::sizer::DirectorySizeResult,
) -> (r: DirectoryEntry)
    ensures
        r.path@ == path@,
        r.size_bytes == sized.total_size,
        r.file_count == sized.file_count,
        r.last_modified_ms == sized.last_modified_ms,
        r.category == category,
        r.has_only_symlinks == sized.has_only_symlinks,
{
    DirectoryEntry {
        path: path.to_owned(),
        size_bytes: sized.total_size,
        file_count: sized.file_count,
        last_modified_ms: sized.last_modified_ms,
        category,
        has_only_symlinks: sized.has_only_symlinks,
    }
}

/// Re-measures one directory after user action. A path that no longer
/// exists or is not a directory reports absence; an unresolvable category
/// is an error; otherwise the directory is sized afresh.
pub fn rescan_directory(path: &str) -> (r: Result<RescanResult, String>)
    ensures
        match r {
            Ok(rr) => if rr.exists {
                rr.entry matches Some(e) && e.path@ == path@ && category_dir_names(
                    e.category,
                ).contains(basename_spec(path@)) && (e.has_only_symlinks ==> e.file_count == 0
                    && e.size_bytes == 0)
            } else {
                rr.entry is None
            },
            Err(m) => {
                let b = basename_spec(path@);
                ||| (m@ == "Not an Elixir deps directory: "@ + b && b == "deps"@)
                ||| (m@ == "Not a Go pkg directory: "@ + b && b == "pkg"@)
                ||| (m@ == "Unknown dependency category for: "@ + b && category_from_name(b)
                    is None && b != "vendor"@ && b != "deps"@ && b != "pkg"@)
            },
        },
{
    match classify_rescan_target(path_exists(path), path_is_dir(path)) {
        Some(absent) => {
            return Ok(absent);
        },
        None => {},
    }
    let directory_name = basename(path);
    let name = directory_name.as_str();
    let category: DependencyCategory;
    if str_eq(name, "vendor") {
        // The vendor classification always answers, defaulting to
        // Composer, so no error arises here.
        match DependencyCategory::from_vendor_directory(path) {
            Some(c) => {
                category = c;
                assert(category_dir_names(c)[0] == basename_spec(path@));
            },
            None => {
                proof {
                    assert(false);
                }
                category = DependencyCategory::Composer;
            },
        }
    } else if str_eq(name, "deps") {
        match DependencyCategory::from_deps_directory(path) {
            Some(c) => {
                category = c;
                assert(category_dir_names(c)[0] == basename_spec(path@));
            },
            None => {
                return Err("Not an Elixir deps directory: ".to_owned().concat(name));
            },
        }
    } else if str_eq(name, "pkg") {
        match DependencyCategory::from_pkg_directory(path) {
            Some(c) => {
                category = c;
                assert(category_dir_names(c)[0] == basename_spec(path@));
            },
            None => {
                return Err("Not a Go pkg directory: ".to_owned().concat(name));
            },
        }
    } else {
        match DependencyCategory::from_directory_name(name) {
            Some(c) => {
                category = c;
                proof {
                    lemma_from_name_in_names(basename_spec(path@));
                }
            },
            None => {
                return Err("Unknown dependency category for: ".to_owned().concat(name));
            },
        }
    }
    let size_result = calculate_dir_size_full(path);
    let entry = entry_from_size_result(path, category, &size_result);
    Ok(RescanResult { exists: true, entry: Some(entry) })
}

} // verus!

verus! {

use crate::strutil::split_on;

/// A dependency root whose earlier path components are all ordinary —
/// as with monorepo siblings `repo/packages/A/node_modules` and
/// `repo/packages/B/node_modules` — is never filtered as nested, whatever
/// basename it was accepted under.
pub proof fn lemma_monorepo_roots_not_nested(path: Seq<char>, cur: Seq<char>, names: Seq<Seq<char>>)
    requires
        forall|i: int|
            0 <= i < split_on(path, '/').len() - 1 ==> !component_in(names, split_on(path, '/')[i]),
    ensures
        !nested_in_dependency(path, cur, names),
{
    let comps = split_on(path, '/');
    if nested_in_dependency(path, cur, names) {
        let pos = choose|pos: int|
            0 <= pos < comps.len() && comps[pos] == cur && (forall|q: int|
                pos < q < comps.len() ==> comps[q] != cur) && exists|i: int|
                0 <= i < pos && component_in(names, comps[i]);
        let i = choose|i: int| 0 <= i < pos && component_in(names, comps[i]);
        assert(i < comps.len() - 1);
        assert(false);
    }
}

} // verus!
