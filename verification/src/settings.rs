//! The configuration contract the core consumes: recognized fields, their
//! defaults, and validation of the exclude-pattern string.

use vstd::prelude::*;

verus! {

use vstd::string::StrSliceExecFns;
use vstd::string::StringExecFns;
use crate::taxonomy::{DependencyCategory, all_categories};
use crate::pattern::{parse_patterns_spec, parse_exclude_patterns};
use crate::fsprobe::home_dir_string;

/// Default threshold above which reclaimable space is flagged: 5 GiB.
pub const THRESHOLD_BYTES: u64 = 5368709120;

/// Threshold the background aggregator falls back on when settings cannot
/// be loaded: 1 GiB.
pub const BACKGROUND_THRESHOLD_BYTES: u64 = 1073741824;

/// Upper bound, in characters, on the whole comma-separated exclude string.
pub const MAX_TOTAL_LENGTH: usize = 10000;

/// Upper bound on the number of exclude patterns.
pub const MAX_PATTERN_COUNT: usize = 50;

/// Upper bound, in characters, on a single exclude pattern.
pub const MAX_PATTERN_LENGTH: usize = 500;

/// Upper bound on `*` characters in a single exclude pattern.
pub const MAX_WILDCARDS_PER_PATTERN: usize = 10;

#[derive(Clone, Copy, PartialEq, Eq, Structural, Debug)]
pub enum FontSize {
    Default,
    Large,
    ExtraLarge,
}

#[derive(Clone, Copy, PartialEq, Eq, Structural, Debug)]
pub enum RescanInterval {
    OneHour,
    OneDay,
    OneWeek,
    OneMonth,
    Never,
}

/// What went wrong while handling settings.
#[derive(Clone, Debug)]
pub enum SettingsError {
    NoConfigDir,
    CreateDir(String),
    Read(String),
    Write(String),
    Parse(String),
    Serialize(String),
    InvalidExcludePatterns(String),
}

impl SettingsError {
    /// The human-readable description of the error.
    pub fn message(&self) -> (r: String)
        ensures
            match self {
                SettingsError::NoConfigDir => r@ == "Failed to determine config directory"@,
                SettingsError::CreateDir(d) => r@ == "Failed to create config directory: "@ + d@,
                SettingsError::Read(d) => r@ == "Failed to read settings: "@ + d@,
                SettingsError::Write(d) => r@ == "Failed to write settings: "@ + d@,
                SettingsError::Parse(d) => r@ == "Failed to parse settings: "@ + d@,
                SettingsError::Serialize(d) => r@ == "Failed to serialize settings: "@ + d@,
                SettingsError::InvalidExcludePatterns(d) => r@ == "Invalid exclude patterns: "@
                    + d@,
            },
    {
        match self {
            SettingsError::NoConfigDir => "Failed to determine config directory".to_owned(),
            SettingsError::CreateDir(d) => "Failed to create config directory: ".to_owned()
                .concat(d.as_str()),
            SettingsError::Read(d) => "Failed to read settings: ".to_owned().concat(d.as_str()),
            SettingsError::Write(d) => "Failed to write settings: ".to_owned().concat(d.as_str()),
            SettingsError::Parse(d) => "Failed to parse settings: ".to_owned().concat(d.as_str()),
            SettingsError::Serialize(d) => "Failed to serialize settings: ".to_owned().concat(
                d.as_str(),
            ),
            SettingsError::InvalidExcludePatterns(d) => "Invalid exclude patterns: ".to_owned()
                .concat(d.as_str()),
        }
    }
}

/// The configuration the core consumes.
#[derive(Clone, Debug)]
pub struct AppSettings {
    pub threshold_bytes: u64,
    pub root_directory: String,
    pub enabled_categories: Vec<DependencyCategory>,
    pub min_size_bytes: u64,
    pub permanent_delete: bool,
    pub exclude_paths: String,
    pub rescan_interval: RescanInterval,
    pub confirm_before_delete: bool,
    pub notify_on_threshold_exceeded: bool,
    pub font_size: FontSize,
}

/// By default every category is enabled.
pub fn default_enabled_categories() -> (r: Vec<DependencyCategory>)
    ensures
        r@ == all_categories(),
{
    DependencyCategory::all()
}

pub fn default_min_size_bytes() -> (r: u64)
    ensures
        r == 0,
{
    0
}

pub fn default_permanent_delete() -> (r: bool)
    ensures
        r == false,
{
    false
}

pub fn default_exclude_paths() -> (r: String)
    ensures
        r@ == Seq::<char>::empty(),
{
    String::new()
}

pub fn default_rescan_interval() -> (r: RescanInterval)
    ensures
        r == RescanInterval::OneDay,
{
    RescanInterval::OneDay
}

pub fn default_confirm_before_delete() -> (r: bool)
    ensures
        r == true,
{
    true
}

pub fn default_notify_on_threshold_exceeded() -> (r: bool)
    ensures
        r == true,
{
    true
}

pub fn default_font_size() -> (r: FontSize)
    ensures
        r == FontSize::Default,
{
    FontSize::Default
}

impl Default for AppSettings {
    /// The default settings: every category enabled, a 5 GiB threshold,
    /// and the user's home directory as root (falling back to `/`).
    fn default() -> (r: Self)
        ensures
            r.threshold_bytes == THRESHOLD_BYTES,
            r.enabled_categories@ == all_categories(),
            r.min_size_bytes == 0,
            r.permanent_delete == false,
            r.exclude_paths@ == Seq::<char>::empty(),
            r.rescan_interval == RescanInterval::OneDay,
            r.confirm_before_delete == true,
            r.notify_on_threshold_exceeded == true,
            r.font_size == FontSize::Default,
    {
        let home = match home_dir_string() {
            Some(h) => h,
            None => "/".to_owned(),
        };
        AppSettings {
            threshold_bytes: THRESHOLD_BYTES,
            root_directory: home,
            enabled_categories: default_enabled_categories(),
            min_size_bytes: default_min_size_bytes(),
            permanent_delete: default_permanent_delete(),
            exclude_paths: default_exclude_paths(),
            rescan_interval: default_rescan_interval(),
            confirm_before_delete: default_confirm_before_delete(),
            notify_on_threshold_exceeded: default_notify_on_threshold_exceeded(),
            font_size: default_font_size(),
        }
    }
}

/// The number of times `c` occurs in `s`.
pub open spec fn count_char(s: Seq<char>, c: char) -> int
    decreases s.len(),
{
    if s.len() == 0 {
        0
    } else {
        count_char(s.drop_last(), c) + if s.last() == c {
            1int
        } else {
            0int
        }
    }
}

/// Counts the occurrences of `c` in `s`.
pub fn count_char_in_str(s: &str, c: char) -> (r: usize)
    ensures
        r == count_char(s@, c),
{
    let len = s.unicode_len();
    let mut n: usize = 0;
    let mut i: usize = 0;
    while i < len
        invariant
            i <= len,
            len == s@.len(),
            n <= i,
            n == count_char(s@.subrange(0, i as int), c),
        decreases len - i,
    {
        proof {
            assert(s@.subrange(0, i + 1).drop_last() =~= s@.subrange(0, i as int));
            assert(s@.subrange(0, i + 1).last() == s@[i as int]);
        }
        if s.get_char(i) == c {
            n = n + 1;
        }
        i = i + 1;
    }
    proof {
        assert(s@.subrange(0, len as int) =~= s@);
    }
    n
}

/// The exclude string stays within every limit: total length, pattern
/// count, per-pattern length, and wildcards per pattern.
pub open spec fn exclude_patterns_within_limits(s: Seq<char>) -> bool {
    &&& s.len() <= MAX_TOTAL_LENGTH
    &&& parse_patterns_spec(s).len() <= MAX_PATTERN_COUNT
    &&& forall|i: int|
        0 <= i < parse_patterns_spec(s).len() ==> parse_patterns_spec(s)[i].len()
            <= MAX_PATTERN_LENGTH
    &&& forall|i: int|
        0 <= i < parse_patterns_spec(s).len() ==> count_char(parse_patterns_spec(s)[i], '*')
            <= MAX_WILDCARDS_PER_PATTERN
}

/// Validates the exclude string against the limits, accepting exactly the
/// strings within them.
pub fn validate_exclude_patterns(exclude_paths: &str) -> (r: Result<(), SettingsError>)
    ensures
        r is Ok <==> exclude_patterns_within_limits(exclude_paths@),
        r matches Err(e) ==> e is InvalidExcludePatterns,
{
    let ghost gps = parse_patterns_spec(exclude_paths@);
    if exclude_paths.unicode_len() > MAX_TOTAL_LENGTH {
        return Err(SettingsError::InvalidExcludePatterns(
            "Total exclude patterns length exceeds 10000 characters".to_owned(),
        ));
    }
    let patterns = parse_exclude_patterns(exclude_paths);
    if patterns.len() > MAX_PATTERN_COUNT {
        return Err(SettingsError::InvalidExcludePatterns(
            "Too many exclude patterns (max 50)".to_owned(),
        ));
    }
    let mut i: usize = 0;
    while i < patterns.len()
        invariant
            i <= patterns.len(),
            gps == parse_patterns_spec(exclude_paths@),
            patterns.deep_view() == gps,
            forall|j: int| 0 <= j < i ==> gps[j].len() <= MAX_PATTERN_LENGTH,
            forall|j: int| 0 <= j < i ==> count_char(gps[j], '*') <= MAX_WILDCARDS_PER_PATTERN,
        decreases patterns.len() - i,
    {
        assert(gps[i as int] == patterns@[i as int]@);
        let p = patterns[i].as_str();
        let p_len = p.unicode_len();
        if p_len > MAX_PATTERN_LENGTH {
            let shown = p.substring_char(0, if p_len < 50 { p_len } else { 50 });
            return Err(SettingsError::InvalidExcludePatterns(
                "Pattern exceeds 500 characters: ".to_owned().concat(shown).concat("..."),
            ));
        }
        if count_char_in_str(p, '*') > MAX_WILDCARDS_PER_PATTERN {
            let shown = p.substring_char(0, if p_len < 50 { p_len } else { 50 });
            return Err(SettingsError::InvalidExcludePatterns(
                "Pattern has too many wildcards (max 10): ".to_owned().concat(shown).concat(
                    "...",
                ),
            ));
        }
        i = i + 1;
    }
    Ok(())
}

} // verus!
