//! Validation for revealing a path in the file manager: the path must
//! exist and lie inside the user's home directory.

use vstd::prelude::*;

verus! {

use vstd::string::StrSliceExecFns;
use crate::strutil::{str_eq, str_starts_with, is_prefix_of};
use crate::fsprobe::{path_exists, canonicalize_path_string, home_dir_string};

/// `path` lies within `base`, component-wise: it is `base` itself, or
/// continues `base` at a component boundary, or `base` is the root.
pub open spec fn path_within(path: Seq<char>, base: Seq<char>) -> bool {
    ||| path == base
    ||| (is_prefix_of(path, base) && base.len() < path.len() && path[base.len() as int] == '/')
    ||| (base == seq!['/'] && path.len() > 0 && path[0] == '/')
}

/// Whether `path` lies within `base`, at component granularity: a sibling
/// whose name merely extends the base's last component does not count.
pub fn path_is_within(path: &str, base: &str) -> (r: bool)
    ensures
        r == path_within(path@, base@),
{
    proof {
        reveal_strlit("/");
    }
    if str_eq(path, base) {
        return true;
    }
    if str_eq(base, "/") {
        let within = str_starts_with(path, "/");
        proof {
            assert("/"@ =~= seq!['/']);
            assert(base@ == seq!['/']);
            if within {
                assert(path@.subrange(0, 1) == "/"@);
                assert(path@.subrange(0, 1)[0] == path@[0]);
                assert("/"@[0] == '/');
                assert(path@[0] == '/');
            } else if path@.len() > 0 && path@[0] == '/' {
                assert(path@.subrange(0, 1) =~= seq!['/']);
            }
        }
        return within;
    }
    let base_len = base.unicode_len();
    if str_starts_with(path, base) && base_len < path.unicode_len() && path.get_char(base_len)
        == '/' {
        return true;
    }
    proof {
        assert("/"@ =~= seq!['/']);
    }
    false
}

/// Checks that a path exists on disk.
pub fn validate_path_exists(path: &str) -> (r: Result<(), String>)
    ensures
        r matches Err(m) ==> m@ == "Path does not exist"@,
{
    if !path_exists(path) {
        return Err("Path does not exist".to_owned());
    }
    Ok(())
}

/// Checks that a path, once canonicalized, lies inside the canonicalized
/// home directory; each failure carries its fixed message.
pub fn validate_path_within_home(path: &str) -> (r: Result<(), String>)
    ensures
        r matches Err(m) ==> m@ == "Could not determine home directory"@ || m@
            == "Invalid path"@ || m@ == "Could not verify home directory"@ || m@
            == "Path must be within home directory"@,
{
    let home_dir = match home_dir_string() {
        Some(h) => h,
        None => {
            return Err("Could not determine home directory".to_owned());
        },
    };
    let canonical_path = match canonicalize_path_string(path) {
        Ok(c) => c,
        Err(_) => {
            return Err("Invalid path".to_owned());
        },
    };
    let canonical_home = match canonicalize_path_string(home_dir.as_str()) {
        Ok(c) => c,
        Err(_) => {
            return Err("Could not verify home directory".to_owned());
        },
    };
    if !path_is_within(canonical_path.as_str(), canonical_home.as_str()) {
        return Err("Path must be within home directory".to_owned());
    }
    Ok(())
}

} // verus!
