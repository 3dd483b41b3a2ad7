//! Path-shaped string utilities: the fixed skip set, tilde expansion,
//! nested-dependency detection, and component-level helpers.

use vstd::prelude::*;

verus! {

use vstd::string::StrSliceExecFns;
use vstd::string::StringExecFns;
use crate::strutil::{split_on, split_str, str_eq, lemma_split_on_len};

/// Directory basenames that are never descended into: configuration and
/// cache roots plus OS-reserved user folders.
pub open spec fn is_skip_dir_name(s: Seq<char>) -> bool {
    ||| s == ".git"@
    ||| s == ".cache"@
    ||| s == ".config"@
    ||| s == "Library"@
    ||| s == ".Trash"@
    ||| s == "Applications"@
    ||| s == ".npm"@
    ||| s == ".cargo"@
    ||| s == ".cursor"@
    ||| s == ".vscode"@
    ||| s == "OrbStack"@
    ||| s == ".volta"@
    ||| s == ".nvm"@
    ||| s == ".fnm"@
    ||| s == ".asdf"@
    ||| s == ".mise"@
    ||| s == ".pyenv"@
    ||| s == ".rbenv"@
    ||| s == ".rustup"@
    ||| s == ".local"@
    ||| s == "Music"@
    ||| s == "Pictures"@
    ||| s == "Movies"@
    ||| s == "Photos Library.photoslibrary"@
}

/// Whether a directory basename is pruned from the walk. Membership is
/// exact and case-sensitive.
pub fn should_skip_directory(name: &str) -> (r: bool)
    ensures
        r == is_skip_dir_name(name@),
{
    str_eq(name, ".git") || str_eq(name, ".cache") || str_eq(name, ".config")
        || str_eq(name, "Library") || str_eq(name, ".Trash") || str_eq(name, "Applications")
        || str_eq(name, ".npm") || str_eq(name, ".cargo") || str_eq(name, ".cursor")
        || str_eq(name, ".vscode") || str_eq(name, "OrbStack") || str_eq(name, ".volta")
        || str_eq(name, ".nvm") || str_eq(name, ".fnm") || str_eq(name, ".asdf")
        || str_eq(name, ".mise") || str_eq(name, ".pyenv") || str_eq(name, ".rbenv")
        || str_eq(name, ".rustup") || str_eq(name, ".local") || str_eq(name, "Music")
        || str_eq(name, "Pictures") || str_eq(name, "Movies")
        || str_eq(name, "Photos Library.photoslibrary")
}

/// A component list contains the component `c`.
pub open spec fn component_in(names: Seq<Seq<char>>, c: Seq<char>) -> bool {
    exists|i: int| 0 <= i < names.len() && names[i] == c
}

/// Whether some element of `v` equals `s`, character for character.
pub fn string_vec_contains(v: &Vec<String>, s: &str) -> (r: bool)
    ensures
        r == component_in(v.deep_view(), s@),
{
    let mut i: usize = 0;
    while i < v.len()
        invariant
            i <= v.len(),
            forall|j: int| 0 <= j < i ==> v.deep_view()[j] != s@,
        decreases v.len() - i,
    {
        assert(v.deep_view()[i as int] == v@[i as int]@);
        if str_eq(v[i].as_str(), s) {
            return true;
        }
        i = i + 1;
    }
    false
}

/// A dependency directory is nested when an earlier path component, before
/// the last component equal to the directory's own basename, is itself a
/// known dependency directory name.
pub open spec fn nested_in_dependency(path: Seq<char>, cur: Seq<char>, names: Seq<Seq<char>>) -> bool {
    let comps = split_on(path, '/');
    exists|pos: int|
        0 <= pos < comps.len() && comps[pos] == cur
        && (forall|q: int| pos < q < comps.len() ==> comps[q] != cur)
        && exists|i: int| 0 <= i < pos && component_in(names, comps[i])
}

/// Whether `path_string` lies inside another dependency root. The path is
/// split on `/`; the last component equal to `current_dir_name` is located,
/// and any earlier component drawn from `all_dependency_dirs` marks the
/// directory as nested. Substring collisions do not count: only whole
/// components match.
pub fn is_inside_dependency_directory(
    path_string: &str,
    current_dir_name: &str,
    all_dependency_dirs: &Vec<String>,
) -> (r: bool)
    ensures
        r == nested_in_dependency(path_string@, current_dir_name@, all_dependency_dirs.deep_view()),
{
    let comps = split_str(path_string, '/');
    let ghost gcomps = split_on(path_string@, '/');
    let n = comps.len();
    proof {
        lemma_split_on_len(path_string@, '/');
    }
    // Find the last component equal to current_dir_name.
    let mut pos: usize = n;
    let mut k: usize = n;
    while k > 0
        invariant
            k <= n,
            n == gcomps.len(),
            gcomps == split_on(path_string@, '/'),
            comps.deep_view() == gcomps,
            pos == n || (k <= pos < n as int && gcomps[pos as int] == current_dir_name@),
            pos == n ==> forall|q: int| k <= q < n ==> gcomps[q] != current_dir_name@,
            pos < n ==> forall|q: int| pos < q < n ==> gcomps[q] != current_dir_name@,
        decreases k,
    {
        k = k - 1;
        if pos == n {
            assert(gcomps[k as int] == comps@[k as int]@);
            if str_eq(comps[k].as_str(), current_dir_name) {
                pos = k;
            }
        }
    }
    if pos == n {
        // No component equals the basename: not nested.
        assert(!nested_in_dependency(path_string@, current_dir_name@,
            all_dependency_dirs.deep_view()));
        return false;
    }
    let mut i: usize = 0;
    while i < pos
        invariant
            i <= pos < n,
            n == gcomps.len(),
            gcomps == split_on(path_string@, '/'),
            comps.deep_view() == gcomps,
            gcomps[pos as int] == current_dir_name@,
            forall|q: int| pos < q < n ==> gcomps[q] != current_dir_name@,
            forall|j: int| 0 <= j < i ==> !component_in(all_dependency_dirs.deep_view(), gcomps[j]),
        decreases pos - i,
    {
        assert(gcomps[i as int] == comps@[i as int]@);
        if string_vec_contains(all_dependency_dirs, comps[i].as_str()) {
            assert(nested_in_dependency(path_string@, current_dir_name@,
                all_dependency_dirs.deep_view())) by {
                let scomps = split_on(path_string@, '/');
                let p = pos as int;
                assert(scomps == gcomps);
                assert(0 <= p < scomps.len() && scomps[p] == current_dir_name@);
                assert(forall|q: int| p < q < scomps.len() ==> scomps[q] != current_dir_name@);
                assert(exists|j: int|
                    0 <= j < p && component_in(all_dependency_dirs.deep_view(), scomps[j])) by {
                    assert(component_in(all_dependency_dirs.deep_view(), scomps[i as int]));
                }
            }
            return true;
        }
        i = i + 1;
    }
    // The located position is the unique last occurrence, so no witness can
    // satisfy the nested predicate.
    assert(!nested_in_dependency(path_string@, current_dir_name@,
        all_dependency_dirs.deep_view())) by {
        assert forall|p: int|
            0 <= p < gcomps.len() && gcomps[p] == current_dir_name@
            && (forall|q: int| p < q < gcomps.len() ==> gcomps[q] != current_dir_name@)
            implies !(exists|j: int| 0 <= j < p && component_in(all_dependency_dirs.deep_view(), gcomps[j])) by {
            assert(p == pos as int);
        }
    }
    false
}

/// A path contains `node_modules` as a component at least twice.
pub open spec fn nested_node_modules(path: Seq<char>) -> bool {
    let comps = split_on(path, '/');
    exists|i: int, j: int|
        0 <= i < j < comps.len() && comps[i] == "node_modules"@ && comps[j] == "node_modules"@
}

/// Whether `node_modules` appears more than once among the path's components.
pub fn is_nested_node_modules(path_string: &str) -> (r: bool)
    ensures
        r == nested_node_modules(path_string@),
{
    let comps = split_str(path_string, '/');
    let ghost gcomps = split_on(path_string@, '/');
    let n = comps.len();
    let mut first: usize = n;
    let mut k: usize = 0;
    while k < n
        invariant
            k <= n,
            n == gcomps.len(),
            gcomps == split_on(path_string@, '/'),
            comps.deep_view() == gcomps,
            first == n || (first < k && gcomps[first as int] == "node_modules"@),
            first == n ==> forall|q: int| 0 <= q < k ==> gcomps[q] != "node_modules"@,
            first < n ==> forall|q: int| first < q < k ==> gcomps[q] != "node_modules"@,
            first < n ==> forall|q: int| 0 <= q < first ==> gcomps[q] != "node_modules"@,
        decreases n - k,
    {
        assert(gcomps[k as int] == comps@[k as int]@);
        if str_eq(comps[k].as_str(), "node_modules") {
            if first < n {
                assert(nested_node_modules(path_string@)) by {
                    let scomps = split_on(path_string@, '/');
                    let fi = first as int;
                    let ki = k as int;
                    assert(scomps == gcomps);
                    assert(0 <= fi < ki < scomps.len());
                    assert(scomps[fi] == "node_modules"@);
                    assert(scomps[ki] == "node_modules"@);
                }
                return true;
            }
            first = k;
        }
        k = k + 1;
    }
    assert(!nested_node_modules(path_string@)) by {
        if exists|i: int, j: int|
            0 <= i < j < gcomps.len() && gcomps[i] == "node_modules"@ && gcomps[j]
                == "node_modules"@ {
            let (i, j) = choose|i: int, j: int|
                0 <= i < j < gcomps.len() && gcomps[i] == "node_modules"@ && gcomps[j]
                    == "node_modules"@;
            // At most one component can be node_modules: everything other
            // than `first` was ruled out by the loop.
            assert(first < n);
            assert(j <= first as int);
            assert(false);
        }
    }
    false
}

/// Replaces a leading `~` with the given home directory; any other input is
/// returned unchanged. A `~` elsewhere in the string is not expanded.
pub fn splice_home(path: &str, home: &str) -> (r: String)
    ensures
        path@.len() > 0 && path@[0] == '~' ==> r@ == home@ + path@.subrange(1, path@.len() as int),
        !(path@.len() > 0 && path@[0] == '~') ==> r@ == path@,
{
    let len = path.unicode_len();
    if len > 0 && path.get_char(0) == '~' {
        let rest = path.substring_char(1, len);
        home.to_owned().concat(rest)
    } else {
        path.to_owned()
    }
}

} // verus!

verus! {

/// Index of the last occurrence of `c` in `s`, or -1 when absent.
pub open spec fn last_index_of(s: Seq<char>, c: char) -> int
    decreases s.len(),
{
    if s.len() == 0 {
        -1
    } else if s.last() == c {
        s.len() - 1
    } else {
        last_index_of(s.drop_last(), c)
    }
}

proof fn lemma_last_index_of_at(s: Seq<char>, c: char, i: int)
    requires
        0 <= i < s.len(),
        s[i] == c,
        forall|j: int| i < j < s.len() ==> s[j] != c,
    ensures
        last_index_of(s, c) == i,
    decreases s.len(),
{
    if i == s.len() - 1 {
    } else {
        assert(s.last() != c);
        let t = s.drop_last();
        assert(t[i] == c);
        lemma_last_index_of_at(t, c, i);
    }
}

proof fn lemma_last_index_of_none(s: Seq<char>, c: char)
    requires
        forall|j: int| 0 <= j < s.len() ==> s[j] != c,
    ensures
        last_index_of(s, c) == -1,
    decreases s.len(),
{
    if s.len() > 0 {
        lemma_last_index_of_none(s.drop_last(), c);
    }
}

/// `s` with any run of trailing `/` characters removed.
pub open spec fn strip_trailing_slashes(s: Seq<char>) -> Seq<char>
    decreases s.len(),
{
    if s.len() > 0 && s.last() == '/' {
        strip_trailing_slashes(s.drop_last())
    } else {
        s
    }
}

proof fn lemma_strip_trailing_slashes_subrange(s: Seq<char>, b: int)
    requires
        0 <= b <= s.len(),
        forall|j: int| b <= j < s.len() ==> s[j] == '/',
        b > 0 ==> s[b - 1] != '/',
    ensures
        strip_trailing_slashes(s) == s.subrange(0, b),
    decreases s.len() - b,
{
    if b < s.len() {
        let t = s.drop_last();
        assert(t =~= s.subrange(0, s.len() - 1));
        lemma_strip_trailing_slashes_subrange(t, b);
        assert(t.subrange(0, b) =~= s.subrange(0, b));
    } else {
        assert(s.subrange(0, s.len() as int) =~= s);
    }
}

/// The final path component: trailing slashes are ignored, and everything
/// after the last remaining `/` is the basename.
pub open spec fn basename_spec(s: Seq<char>) -> Seq<char> {
    let t = strip_trailing_slashes(s);
    t.subrange(last_index_of(t, '/') + 1, t.len() as int)
}

/// Extracts the final path component of `path`.
pub fn basename(path: &str) -> (r: String)
    ensures
        r@ == basename_spec(path@),
{
    let len = path.unicode_len();
    let mut b: usize = len;
    while b > 0 && path.get_char(b - 1) == '/'
        invariant
            b <= len,
            len == path@.len(),
            forall|j: int| b <= j < len ==> path@[j] == '/',
        decreases b,
    {
        b = b - 1;
    }
    proof {
        lemma_strip_trailing_slashes_subrange(path@, b as int);
    }
    let ghost t = strip_trailing_slashes(path@);
    let mut a: usize = b;
    while a > 0 && path.get_char(a - 1) != '/'
        invariant
            a <= b <= len,
            len == path@.len(),
            t == path@.subrange(0, b as int),
            forall|j: int| a <= j < b ==> path@[j] != '/',
        decreases a,
    {
        a = a - 1;
    }
    proof {
        if a > 0 {
            assert(t[a - 1] == '/');
            assert(forall|j: int| a <= j < t.len() ==> t[j] != '/');
            lemma_last_index_of_at(t, '/', a - 1);
        } else {
            assert(forall|j: int| 0 <= j < t.len() ==> t[j] != '/');
            lemma_last_index_of_none(t, '/');
        }
    }
    let r = path.substring_char(a, b);
    proof {
        assert(path@.subrange(a as int, b as int) =~= t.subrange(
            last_index_of(t, '/') + 1,
            t.len() as int,
        ));
    }
    r.to_owned()
}

/// The directory part of `path`: trailing slashes are ignored, then
/// everything before the last remaining `/` is the parent — the root `/`
/// itself when that slash leads the path, and the empty string when no
/// slash remains.
pub open spec fn parent_dir_spec(s: Seq<char>) -> Seq<char> {
    let t = strip_trailing_slashes(s);
    let i = last_index_of(t, '/');
    if i < 0 {
        Seq::<char>::empty()
    } else if i == 0 {
        seq!['/']
    } else {
        t.subrange(0, i)
    }
}

/// Extracts the directory part of `path`.
pub fn parent_dir(path: &str) -> (r: String)
    ensures
        r@ == parent_dir_spec(path@),
{
    let len = path.unicode_len();
    let mut b: usize = len;
    while b > 0 && path.get_char(b - 1) == '/'
        invariant
            b <= len,
            len == path@.len(),
            forall|j: int| b <= j < len ==> path@[j] == '/',
        decreases b,
    {
        b = b - 1;
    }
    proof {
        lemma_strip_trailing_slashes_subrange(path@, b as int);
    }
    let ghost t = strip_trailing_slashes(path@);
    let mut a: usize = b;
    while a > 0 && path.get_char(a - 1) != '/'
        invariant
            a <= b <= len,
            len == path@.len(),
            t == path@.subrange(0, b as int),
            forall|j: int| a <= j < b ==> path@[j] != '/',
        decreases a,
    {
        a = a - 1;
    }
    proof {
        if a > 0 {
            assert(t[a - 1] == '/');
            assert(forall|j: int| a <= j < t.len() ==> t[j] != '/');
            lemma_last_index_of_at(t, '/', a - 1);
        } else {
            assert(forall|j: int| 0 <= j < t.len() ==> t[j] != '/');
            lemma_last_index_of_none(t, '/');
        }
    }
    if a == 0 {
        String::new()
    } else if a == 1 {
        let r = path.substring_char(0, 1);
        proof {
            assert(path@.subrange(0, 1) =~= seq![path@[0]]);
            assert(seq![path@[0]] =~= seq!['/']);
        }
        r.to_owned()
    } else {
        let r = path.substring_char(0, a - 1);
        proof {
            assert(path@.subrange(0, a - 1) =~= t.subrange(0, a - 1));
        }
        r.to_owned()
    }
}

/// Joins a directory and a child name with `/`; an empty directory leaves
/// the name relative, as the platform's path join does.
pub fn join_path(dir: &str, name: &str) -> (r: String)
    ensures
        dir@.len() == 0 ==> r@ == name@,
        dir@.len() > 0 ==> r@ == dir@ + "/"@ + name@,
{
    if dir.unicode_len() == 0 {
        name.to_owned()
    } else {
        dir.to_owned().concat("/").concat(name)
    }
}

/// A canonical absolute path: non-empty, rooted at `/`, and free of `.`
/// and `..` components.
pub open spec fn is_canonical_path(s: Seq<char>) -> bool {
    &&& s.len() > 0
    &&& s[0] == '/'
    &&& forall|i: int|
        0 <= i < split_on(s, '/').len() ==> split_on(s, '/')[i] != "."@ && split_on(s, '/')[i]
            != ".."@
}

} // verus!

verus! {

use crate::fsprobe::home_dir_string;

/// Expands a leading `~` to the home directory; when the platform reports
/// no home, or the path does not begin with `~`, the path is returned
/// unchanged.
pub fn expand_tilde(path: &str) -> (r: String)
    ensures
        !(path@.len() > 0 && path@[0] == '~') ==> r@ == path@,
{
    match home_dir_string() {
        Some(h) => splice_home(path, h.as_str()),
        None => path.to_owned(),
    }
}

} // verus!
