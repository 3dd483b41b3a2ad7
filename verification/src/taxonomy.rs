//! The category taxonomy: which directory basenames belong to which
//! package manager, and how ambiguous names (`vendor`, `deps`, `pkg`) are
//! resolved by marker files.

use vstd::prelude::*;

verus! {

use crate::strutil::str_eq;
use crate::pathutil::{component_in, string_vec_contains, join_path, parent_dir};
use crate::fsprobe::path_exists;

#[derive(Clone, Copy, PartialEq, Eq, Structural, Debug, Hash)]
pub enum DependencyCategory {
    NodeModules,
    Composer,
    Bundler,
    Pods,
    PythonVenv,
    ElixirDeps,
    DartTool,
    GoMod,
}

/// Every category, in canonical order.
pub open spec fn all_categories() -> Seq<DependencyCategory> {
    seq![
        DependencyCategory::NodeModules,
        DependencyCategory::Composer,
        DependencyCategory::Bundler,
        DependencyCategory::Pods,
        DependencyCategory::PythonVenv,
        DependencyCategory::ElixirDeps,
        DependencyCategory::DartTool,
        DependencyCategory::GoMod,
    ]
}

/// The directory basenames a category may present as.
pub open spec fn category_dir_names(c: DependencyCategory) -> Seq<Seq<char>> {
    match c {
        DependencyCategory::NodeModules => seq!["node_modules"@],
        DependencyCategory::Composer => seq!["vendor"@],
        DependencyCategory::Bundler => seq!["vendor"@],
        DependencyCategory::Pods => seq!["Pods"@],
        DependencyCategory::PythonVenv => seq![".venv"@, "venv"@],
        DependencyCategory::ElixirDeps => seq!["deps"@],
        DependencyCategory::DartTool => seq![".dart_tool"@],
        DependencyCategory::GoMod => seq!["pkg"@],
    }
}

/// The category a basename resolves to without marker inspection; the
/// ambiguous names `vendor`, `deps` and `pkg` resolve to nothing here.
pub open spec fn category_from_name(s: Seq<char>) -> Option<DependencyCategory> {
    if s == "node_modules"@ {
        Some(DependencyCategory::NodeModules)
    } else if s == "Pods"@ {
        Some(DependencyCategory::Pods)
    } else if s == ".venv"@ || s == "venv"@ {
        Some(DependencyCategory::PythonVenv)
    } else if s == ".dart_tool"@ {
        Some(DependencyCategory::DartTool)
    } else {
        None
    }
}

/// The category a `deps` directory resolves to for a given marker
/// answer: Elixir's exactly when the parent holds a `mix.exs`.
pub open spec fn deps_category_from_marker(parent_has_mix: bool) -> Option<DependencyCategory> {
    if parent_has_mix {
        Some(DependencyCategory::ElixirDeps)
    } else {
        None
    }
}

/// The category a `pkg` directory resolves to for a given marker answer:
/// Go's module cache exactly when it holds a `mod/` child.
pub open spec fn pkg_category_from_marker(has_mod_dir: bool) -> Option<DependencyCategory> {
    if has_mod_dir {
        Some(DependencyCategory::GoMod)
    } else {
        None
    }
}

/// How a `vendor` directory is classified from its markers: Composer
/// markers win, then a `bundle/` child, then a sibling `Gemfile`; plain
/// `vendor` defaults to Composer, the more common convention.
pub open spec fn vendor_category_from_markers(
    has_autoload: bool,
    has_composer_dir: bool,
    has_bundle_dir: bool,
    parent_has_gemfile: bool,
) -> DependencyCategory {
    if has_autoload || has_composer_dir {
        DependencyCategory::Composer
    } else if has_bundle_dir {
        DependencyCategory::Bundler
    } else if parent_has_gemfile {
        DependencyCategory::Bundler
    } else {
        DependencyCategory::Composer
    }
}

impl DependencyCategory {
    /// Every category, in canonical order.
    pub fn all() -> (r: Vec<DependencyCategory>)
        ensures
            r@ == all_categories(),
    {
        let mut v: Vec<DependencyCategory> = Vec::new();
        v.push(DependencyCategory::NodeModules);
        v.push(DependencyCategory::Composer);
        v.push(DependencyCategory::Bundler);
        v.push(DependencyCategory::Pods);
        v.push(DependencyCategory::PythonVenv);
        v.push(DependencyCategory::ElixirDeps);
        v.push(DependencyCategory::DartTool);
        v.push(DependencyCategory::GoMod);
        proof {
            assert(v@ =~= all_categories());
        }
        v
    }

    /// The directory basenames this category may present as.
    pub fn directory_names(&self) -> (r: Vec<String>)
        ensures
            r.deep_view() == category_dir_names(*self),
    {
        let mut v: Vec<String> = Vec::new();
        match self {
            DependencyCategory::NodeModules => { v.push("node_modules".to_owned()); },
            DependencyCategory::Composer => { v.push("vendor".to_owned()); },
            DependencyCategory::Bundler => { v.push("vendor".to_owned()); },
            DependencyCategory::Pods => { v.push("Pods".to_owned()); },
            DependencyCategory::PythonVenv => {
                v.push(".venv".to_owned());
                v.push("venv".to_owned());
            },
            DependencyCategory::DartTool => { v.push(".dart_tool".to_owned()); },
            DependencyCategory::ElixirDeps => { v.push("deps".to_owned()); },
            DependencyCategory::GoMod => { v.push("pkg".to_owned()); },
        }
        proof {
            assert(v.deep_view() =~~= category_dir_names(*self));
        }
        v
    }

    /// A human-readable label for the category.
    pub fn label(&self) -> (r: &'static str)
        ensures
            r@ == category_label(*self),
    {
        match self {
            DependencyCategory::NodeModules => "Node.js (node_modules)",
            DependencyCategory::Composer => "PHP (vendor)",
            DependencyCategory::Bundler => "Ruby (vendor)",
            DependencyCategory::Pods => "iOS (Pods)",
            DependencyCategory::PythonVenv => "Python (venv)",
            DependencyCategory::ElixirDeps => "Elixir (deps)",
            DependencyCategory::DartTool => "Dart (dart_tool)",
            DependencyCategory::GoMod => "Go (pkg/mod)",
        }
    }

    /// Resolves a basename to its category; ambiguous names resolve to
    /// none and take the specialized marker inspections below.
    pub fn from_directory_name(dir_name: &str) -> (r: Option<DependencyCategory>)
        ensures
            r == category_from_name(dir_name@),
    {
        if str_eq(dir_name, "node_modules") {
            Some(DependencyCategory::NodeModules)
        } else if str_eq(dir_name, "Pods") {
            Some(DependencyCategory::Pods)
        } else if str_eq(dir_name, ".venv") || str_eq(dir_name, "venv") {
            Some(DependencyCategory::PythonVenv)
        } else if str_eq(dir_name, ".dart_tool") {
            Some(DependencyCategory::DartTool)
        } else {
            None
        }
    }

    /// Classifies a `vendor` directory as Composer or Bundler by probing
    /// its marker files; the classification of the four probe outcomes is
    /// `vendor_category_from_markers`, and plain `vendor` defaults to
    /// Composer.
    pub fn from_vendor_directory(vendor_path: &str) -> (r: Option<DependencyCategory>)
        ensures
            r matches Some(c) ==> c == DependencyCategory::Composer || c
                == DependencyCategory::Bundler,
            r is Some,
    {
        let has_autoload = path_exists(join_path(vendor_path, "autoload.php").as_str());
        let has_composer_dir = path_exists(join_path(vendor_path, "composer").as_str());
        let has_bundle_dir = path_exists(join_path(vendor_path, "bundle").as_str());
        let parent = parent_dir(vendor_path);
        let parent_has_gemfile = path_exists(join_path(parent.as_str(), "Gemfile").as_str());
        Some(classify_vendor(has_autoload, has_composer_dir, has_bundle_dir, parent_has_gemfile))
    }

    /// Classifies a `deps` directory by the `mix.exs` probe: the
    /// classification of the probe's answer is `deps_category_from_marker`,
    /// so a generic `deps` folder resolves to nothing.
    pub fn from_deps_directory(deps_path: &str) -> (r: Option<DependencyCategory>)
        ensures
            r matches Some(c) ==> c == DependencyCategory::ElixirDeps,
    {
        let parent = parent_dir(deps_path);
        let parent_has_mix = path_exists(join_path(parent.as_str(), "mix.exs").as_str());
        classify_deps(parent_has_mix)
    }

    /// Classifies a `pkg` directory by the `mod/` probe: the
    /// classification of the probe's answer is `pkg_category_from_marker`,
    /// so a generic `pkg` folder resolves to nothing.
    pub fn from_pkg_directory(pkg_path: &str) -> (r: Option<DependencyCategory>)
        ensures
            r matches Some(c) ==> c == DependencyCategory::GoMod,
    {
        let has_mod_dir = path_exists(join_path(pkg_path, "mod").as_str());
        classify_pkg(has_mod_dir)
    }
}

/// Applies the Elixir classification rule to the `mix.exs` probe answer.
pub fn classify_deps(parent_has_mix: bool) -> (r: Option<DependencyCategory>)
    ensures
        r == deps_category_from_marker(parent_has_mix),
{
    if parent_has_mix {
        Some(DependencyCategory::ElixirDeps)
    } else {
        None
    }
}

/// Applies the Go classification rule to the `mod/` probe answer.
pub fn classify_pkg(has_mod_dir: bool) -> (r: Option<DependencyCategory>)
    ensures
        r == pkg_category_from_marker(has_mod_dir),
{
    if has_mod_dir {
        Some(DependencyCategory::GoMod)
    } else {
        None
    }
}

/// Keeps a marker-resolved category exactly when it is enabled; the
/// resolved category is never substituted, and an enabled answer is never
/// dropped.
pub fn gate_marker_category(
    marker_answer: Option<DependencyCategory>,
    enabled_categories: &Vec<DependencyCategory>,
) -> (r: Option<DependencyCategory>)
    ensures
        r == match marker_answer {
            Some(c) => if enabled_categories@.contains(c) {
                Some(c)
            } else {
                None::<DependencyCategory>
            },
            None => None::<DependencyCategory>,
        },
{
    match marker_answer {
        Some(c) => {
            if category_vec_contains(enabled_categories, c) {
                Some(c)
            } else {
                None
            }
        },
        None => None,
    }
}

/// The label text of each category.
pub open spec fn category_label(c: DependencyCategory) -> Seq<char> {
    match c {
        DependencyCategory::NodeModules => "Node.js (node_modules)"@,
        DependencyCategory::Composer => "PHP (vendor)"@,
        DependencyCategory::Bundler => "Ruby (vendor)"@,
        DependencyCategory::Pods => "iOS (Pods)"@,
        DependencyCategory::PythonVenv => "Python (venv)"@,
        DependencyCategory::ElixirDeps => "Elixir (deps)"@,
        DependencyCategory::DartTool => "Dart (dart_tool)"@,
        DependencyCategory::GoMod => "Go (pkg/mod)"@,
    }
}

/// Applies the vendor classification rule to the four marker probes.
pub fn classify_vendor(
    has_autoload: bool,
    has_composer_dir: bool,
    has_bundle_dir: bool,
    parent_has_gemfile: bool,
) -> (r: DependencyCategory)
    ensures
        r == vendor_category_from_markers(
            has_autoload,
            has_composer_dir,
            has_bundle_dir,
            parent_has_gemfile,
        ),
{
    if has_autoload || has_composer_dir {
        DependencyCategory::Composer
    } else if has_bundle_dir {
        DependencyCategory::Bundler
    } else if parent_has_gemfile {
        DependencyCategory::Bundler
    } else {
        DependencyCategory::Composer
    }
}

/// A name is a target when one of the first `k` categories may present as it.
pub open spec fn name_enabled_prefix(enabled: Seq<DependencyCategory>, k: int, n: Seq<char>) -> bool {
    exists|i: int| 0 <= i < k && category_dir_names(enabled[i]).contains(n)
}

/// A name is a target when some enabled category may present as it.
pub open spec fn name_enabled(enabled: Seq<DependencyCategory>, n: Seq<char>) -> bool {
    name_enabled_prefix(enabled, enabled.len() as int, n)
}

/// Whether `v` holds the category `c`.
pub fn category_vec_contains(v: &Vec<DependencyCategory>, c: DependencyCategory) -> (r: bool)
    ensures
        r == v@.contains(c),
{
    let mut i: usize = 0;
    while i < v.len()
        invariant
            i <= v.len(),
            forall|j: int| 0 <= j < i ==> v@[j] != c,
        decreases v.len() - i,
    {
        if v[i] == c {
            return true;
        }
        i = i + 1;
    }
    false
}

/// The union, without duplicates, of the directory names of the given
/// categories.
pub fn get_target_directory_names(enabled_categories: &Vec<DependencyCategory>) -> (r: Vec<String>)
    ensures
        forall|n: Seq<char>|
            component_in(r.deep_view(), n) <==> name_enabled(enabled_categories@, n),
        forall|i: int, j: int|
            0 <= i < j < r.deep_view().len() ==> r.deep_view()[i] != r.deep_view()[j],
{
    let ghost cats = enabled_categories@;
    let mut out: Vec<String> = Vec::new();
    let mut ci: usize = 0;
    while ci < enabled_categories.len()
        invariant
            ci <= enabled_categories.len(),
            cats == enabled_categories@,
            forall|n: Seq<char>|
                component_in(out.deep_view(), n) <==> name_enabled_prefix(cats, ci as int, n),
            forall|i: int, j: int|
                0 <= i < j < out.deep_view().len() ==> out.deep_view()[i] != out.deep_view()[j],
        decreases enabled_categories.len() - ci,
    {
        let cat = enabled_categories[ci];
        let names = cat.directory_names();
        let ghost gnames = names.deep_view();
        let mut ni: usize = 0;
        while ni < names.len()
            invariant
                ni <= names.len(),
                ci < cats.len(),
                cats == enabled_categories@,
                cats[ci as int] == cat,
                gnames == names.deep_view(),
                gnames == category_dir_names(cat),
                forall|n: Seq<char>|
                    component_in(out.deep_view(), n) <==> (name_enabled_prefix(cats, ci as int, n)
                        || exists|t: int| 0 <= t < ni && gnames[t] == n),
                forall|i: int, j: int|
                    0 <= i < j < out.deep_view().len() ==> out.deep_view()[i] != out.deep_view()[j],
            decreases names.len() - ni,
        {
            let ghost before = out.deep_view();
            let ghost x = gnames[ni as int];
            assert(gnames[ni as int] == names@[ni as int]@);
            let already = string_vec_contains(&out, names[ni].as_str());
            if !already {
                out.push(names[ni].clone());
                proof {
                    assert(out.deep_view() =~= before.push(x)) by {
                        assert(forall|k: int|
                            0 <= k < out.deep_view().len() ==> out.deep_view()[k] == out@[k]@);
                    }
                }
            }
            proof {
                let now = out.deep_view();
                assert forall|n: Seq<char>|
                    component_in(now, n) implies (name_enabled_prefix(cats, ci as int, n)
                        || exists|t: int| 0 <= t < ni + 1 && gnames[t] == n) by {
                    let w = choose|w: int| 0 <= w < now.len() && now[w] == n;
                    if !already && w == now.len() - 1 {
                        assert(n == x);
                        assert(gnames[ni as int] == n);
                    } else {
                        assert(before[w] == n);
                        assert(component_in(before, n));
                    }
                }
                assert forall|n: Seq<char>|
                    (name_enabled_prefix(cats, ci as int, n)
                        || exists|t: int| 0 <= t < ni + 1 && gnames[t] == n)
                    implies component_in(now, n) by {
                    if name_enabled_prefix(cats, ci as int, n) {
                        assert(component_in(before, n));
                        let w = choose|w: int| 0 <= w < before.len() && before[w] == n;
                        assert(now[w] == n);
                    } else {
                        let t = choose|t: int| 0 <= t < ni + 1 && gnames[t] == n;
                        if t < ni {
                            assert(component_in(before, n));
                            let w = choose|w: int| 0 <= w < before.len() && before[w] == n;
                            assert(now[w] == n);
                        } else {
                            assert(n == x);
                            if already {
                                assert(component_in(before, x));
                                let w = choose|w: int| 0 <= w < before.len() && before[w] == x;
                                assert(now[w] == n);
                            } else {
                                assert(now[now.len() - 1] == n);
                            }
                        }
                    }
                }
            }
            ni = ni + 1;
        }
        proof {
            assert forall|n: Seq<char>|
                component_in(out.deep_view(), n) implies name_enabled_prefix(
                    cats,
                    ci + 1,
                    n,
                ) by {
                if name_enabled_prefix(cats, ci as int, n) {
                    let i = choose|i: int|
                        0 <= i < ci && category_dir_names(cats[i]).contains(n);
                    assert(category_dir_names(cats[i]).contains(n));
                } else {
                    let t = choose|t: int| 0 <= t < gnames.len() && gnames[t] == n;
                    assert(category_dir_names(cats[ci as int])[t] == n);
                    assert(category_dir_names(cats[ci as int]).contains(n));
                }
            }
            assert forall|n: Seq<char>|
                name_enabled_prefix(cats, ci + 1, n) implies component_in(out.deep_view(), n) by {
                let i = choose|i: int| 0 <= i < ci + 1 && category_dir_names(cats[i]).contains(n);
                if i < ci {
                    assert(name_enabled_prefix(cats, ci as int, n));
                } else {
                    let t = choose|t: int|
                        0 <= t < category_dir_names(cat).len() && category_dir_names(cat)[t] == n;
                    assert(gnames[t] == n);
                }
            }
        }
        ci = ci + 1;
    }
    out
}

/// The union, without duplicates, of every category's directory names.
pub fn get_all_dependency_directory_names() -> (r: Vec<String>)
    ensures
        forall|n: Seq<char>| component_in(r.deep_view(), n) <==> name_enabled(all_categories(), n),
        forall|i: int, j: int|
            0 <= i < j < r.deep_view().len() ==> r.deep_view()[i] != r.deep_view()[j],
{
    let all = DependencyCategory::all();
    get_target_directory_names(&all)
}

} // verus!
