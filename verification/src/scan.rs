//! Category scanners: discovery of candidate cleanup items.
//!
//! Three variants share one contract: a named-directory scanner that walks
//! the roots looking for fixed directory names, the Xcode scanner that also
//! gates build artifacts on a package manifest and checks global cache
//! locations, and the fixed-path scanner for Homebrew's cache directories.
//! Every discovered item is unmeasured, carries the scanner's category, and
//! is never an excluded path.

use vstd::prelude::*;
use vstd::string::StrSliceExecFns;
use vstd::string::StringExecFns;

use crate::exclude::is_excluded;
use crate::exclude::resolve_path_spec;
use crate::exclude::ExcludeMatcher;
use crate::fswalk::ancestors_unexcluded;
use crate::fswalk::compute_sizes;
use crate::fswalk::lemma_ancestors_join;
use crate::fswalk::path_exists;
use crate::fswalk::read_dir_entries;
use crate::fswalk::stat_path;
use crate::fswalk::EntryKind;
use crate::fswalk::WALK_FUEL;
use crate::model::Category;
use crate::model::ItemKind;
use crate::model::ScanItem;
use crate::model::ScanReport;
use crate::strutil::basename;
use crate::strutil::contains_str;
use crate::strutil::is_component_suffix;
use crate::strutil::join_path;
use crate::strutil::join_spec;
use crate::strutil::lemma_join_is_component_suffix;
use crate::strutil::str_eq;

verus! {

/// The depth limit of discovery walks: entries deeper than this below a
/// root are not examined. A directory is expanded only while its children
/// still lie within the limit.
pub const MAX_SCAN_DEPTH: usize = 10;

/// Whether the final path component of `path` is one of `names`.
pub open spec fn name_matches(path: Seq<char>, names: Seq<Seq<char>>) -> bool {
    exists|j: int| 0 <= j < names.len() && is_component_suffix(path, #[trigger] names[j])
}

/// What every discovery result satisfies: the scanner's category, no size
/// yet, and a path the exclusion matcher does not match.
pub open spec fn discovered_ok(
    it: ScanItem,
    category: Category,
    matcher: ExcludeMatcher,
    cwd: Seq<char>,
) -> bool {
    &&& it.category == category
    &&& it.size is None
    &&& !matcher.excludes(resolve_path_spec(it.path@, cwd))
}

/// Whether every name of the list is free of the path separator, as the
/// built-in target lists are.
pub open spec fn all_separator_free(ts: Seq<Seq<char>>) -> bool {
    forall|t: int|
        0 <= t < ts.len() ==> (forall|j: int| 0 <= j < (#[trigger] ts[t]).len() ==> ts[t][j] != '/')
}

/// No directory strictly on the way down from `root` to `q` is itself
/// target-named: `q` does not sit inside a matched subtree.
pub open spec fn no_matched_ancestor(q: Seq<char>, root: Seq<char>, ts: Seq<Seq<char>>) -> bool {
    forall|k: int|
        root.len() <= k < q.len() && q[k] == '/' ==> !name_matches(#[trigger] q.take(k), ts)
}

/// Whether `p` is a strictly shorter path-component prefix of `q`: `q` lies
/// inside `p`'s subtree.
pub open spec fn strict_comp_prefix(p: Seq<char>, q: Seq<char>) -> bool {
    p.len() < q.len() && p == q.take(p.len() as int) && q[p.len() as int] == '/'
}

/// Whether `q` is `root` itself or lies inside `root`'s subtree.
pub open spec fn within_root(q: Seq<char>, root: Seq<char>) -> bool {
    q == root || strict_comp_prefix(root, q)
}

/// Whether `q` is one of the listed roots or lies inside one's subtree.
pub open spec fn within_some_root(q: Seq<char>, roots: Seq<Seq<char>>) -> bool {
    exists|ri: int| 0 <= ri < roots.len() && within_root(q, #[trigger] roots[ri])
}

/// A path joined below a directory of the subtree stays in the subtree.
proof fn lemma_within_root_join(dir: Seq<char>, name: Seq<char>, root: Seq<char>)
    requires
        within_root(dir, root),
    ensures
        within_root(join_spec(dir, name), root),
{
    reveal_strlit("/");
    let q = join_spec(dir, name);
    assert(q.len() == dir.len() + 1 + name.len());
    assert(q[dir.len() as int] == '/');
    if dir == root {
        assert(root =~= q.take(root.len() as int));
    } else {
        assert(root == dir.take(root.len() as int));
        assert(root =~= q.take(root.len() as int));
        assert(q[root.len() as int] == dir[root.len() as int]);
    }
}

/// Joining a separator-free name onto a directory that is not target-named
/// and has no target-named ancestor keeps every strict ancestor of the
/// joined path free of target names.
proof fn lemma_no_matched_ancestor_join(
    dir: Seq<char>,
    name: Seq<char>,
    root: Seq<char>,
    ts: Seq<Seq<char>>,
)
    requires
        no_matched_ancestor(dir, root, ts),
        !name_matches(dir, ts),
        root.len() <= dir.len(),
        forall|j: int| 0 <= j < name.len() ==> name[j] != '/',
    ensures
        no_matched_ancestor(join_spec(dir, name), root, ts),
{
    reveal_strlit("/");
    let q = join_spec(dir, name);
    assert(q.len() == dir.len() + 1 + name.len());
    assert forall|k: int|
        root.len() <= k < q.len() && q[k] == '/' implies !name_matches(#[trigger] q.take(k), ts) by {
        if k < dir.len() {
            assert(q[k] == dir[k]);
            assert(q.take(k) =~= dir.take(k));
        } else if k == dir.len() {
            assert(q.take(k) =~= dir);
        } else {
            assert(q[k] == name[k - dir.len() - 1]);
        }
    }
}

/// A separator-free entry name that is not one of the (separator-free)
/// targets gives a joined path that is not target-named.
proof fn lemma_join_not_matched(dir: Seq<char>, name: Seq<char>, ts: Seq<Seq<char>>)
    requires
        all_separator_free(ts),
        !ts.contains(name),
        forall|j: int| 0 <= j < name.len() ==> name[j] != '/',
    ensures
        !name_matches(join_spec(dir, name), ts),
{
    let q = join_spec(dir, name);
    if name_matches(q, ts) {
        let ti = choose|ti: int| 0 <= ti < ts.len() && is_component_suffix(q, ts[ti]);
        lemma_join_is_component_suffix(dir, name);
        crate::strutil::lemma_component_suffix_unique(q, ts[ti], name);
    }
}

/// Target-detection walk below one root: emits one unmeasured directory item
/// per outermost directory whose name is in `targets`, pruning both excluded
/// directories and the matched subtrees themselves. When the target names
/// hold no separator — as the built-in lists do — a matched subtree is one
/// opaque unit: no reported directory lies inside another reported one.
pub fn find_target_dirs(
    root: &str,
    targets: &Vec<String>,
    category: Category,
    matcher: &ExcludeMatcher,
    cwd: &str,
) -> (items: Vec<ScanItem>)
    ensures
        forall|i: int|
            0 <= i < items@.len() ==> {
                let it = #[trigger] items@[i];
                &&& discovered_ok(it, category, *matcher, cwd@)
                &&& it.kind == ItemKind::Directory
                &&& name_matches(it.path@, targets.deep_view())
                &&& ancestors_unexcluded(it.path@, root@, *matcher, cwd@)
                &&& within_root(it.path@, root@)
            },
        all_separator_free(targets.deep_view()) ==> forall|a: int, b: int|
            0 <= a < items@.len() && 0 <= b < items@.len() && a != b ==> !strict_comp_prefix(
                (#[trigger] items@[a]).path@,
                (#[trigger] items@[b]).path@,
            ),
{
    let ghost ts = targets.deep_view();
    let mut items: Vec<ScanItem> = Vec::new();
    if is_excluded(root, matcher, cwd) {
        return items;
    }
    let root_is_dir = match stat_path(root) {
        Some(e) => match e.kind {
            EntryKind::Directory => true,
            _ => false,
        },
        None => false,
    };
    if !root_is_dir {
        return items;
    }
    // The root itself counts as an entry: if its own name is a target, it is
    // the one item and nothing below it is reported.
    let base = basename(root);
    if contains_str(targets, base.as_str()) {
        proof {
            let k = choose|k: int|
                0 <= k < targets.deep_view().len() && targets.deep_view()[k] == base@;
            assert(is_component_suffix(root@, targets.deep_view()[k]));
        }
        items.push(ScanItem::pending_directory(category, root.to_owned()));
        return items;
    }
    let mut stack: Vec<(String, usize)> = Vec::new();
    proof {
        if all_separator_free(ts) && name_matches(root@, ts) {
            let ti = choose|ti: int| 0 <= ti < ts.len() && is_component_suffix(root@, ts[ti]);
            crate::strutil::lemma_basename_no_slash(root@);
            crate::strutil::lemma_component_suffix_unique(root@, ts[ti], base@);
        }
    }
    stack.push((root.to_owned(), 0));
    let mut fuel: u64 = WALK_FUEL;
    while stack.len() > 0 && fuel > 0
        invariant
            ts == targets.deep_view(),
            forall|i: int|
                0 <= i < stack@.len() ==> {
                    let d = (#[trigger] stack@[i]).0@;
                    &&& !matcher.excludes(resolve_path_spec(d, cwd@))
                    &&& ancestors_unexcluded(d, root@, *matcher, cwd@)
                    &&& root@.len() <= d.len()
                    &&& within_root(d, root@)
                },
            all_separator_free(ts) ==> forall|i: int|
                0 <= i < stack@.len() ==> {
                    let d = (#[trigger] stack@[i]).0@;
                    &&& no_matched_ancestor(d, root@, ts)
                    &&& !name_matches(d, ts)
                },
            forall|i: int|
                0 <= i < items@.len() ==> {
                    let it = #[trigger] items@[i];
                    &&& discovered_ok(it, category, *matcher, cwd@)
                    &&& it.kind == ItemKind::Directory
                    &&& name_matches(it.path@, targets.deep_view())
                    &&& ancestors_unexcluded(it.path@, root@, *matcher, cwd@)
                    &&& root@.len() <= it.path@.len()
                    &&& within_root(it.path@, root@)
                },
            all_separator_free(ts) ==> forall|i: int|
                0 <= i < items@.len() ==> no_matched_ancestor(
                    (#[trigger] items@[i]).path@,
                    root@,
                    ts,
                ),
        decreases fuel,
    {
        fuel = fuel - 1;
        let top = stack.pop().unwrap();
        let dir = top.0;
        let depth = top.1;
        let entries = read_dir_entries(dir.as_str());
        let mut j: usize = 0;
        while j < entries.len()
            invariant
                ts == targets.deep_view(),
                !matcher.excludes(resolve_path_spec(dir@, cwd@)),
                ancestors_unexcluded(dir@, root@, *matcher, cwd@),
                root@.len() <= dir@.len(),
                within_root(dir@, root@),
                all_separator_free(ts) ==> no_matched_ancestor(dir@, root@, ts) && !name_matches(
                    dir@,
                    ts,
                ),
                forall|i: int|
                    0 <= i < entries@.len() ==> (#[trigger] entries@[i]).name@.len() > 0 && (
                    forall|k: int| 0 <= k < entries@[i].name@.len() ==> entries@[i].name@[k] != '/'),
                forall|i: int|
                    0 <= i < stack@.len() ==> {
                        let d = (#[trigger] stack@[i]).0@;
                        &&& !matcher.excludes(resolve_path_spec(d, cwd@))
                        &&& ancestors_unexcluded(d, root@, *matcher, cwd@)
                        &&& root@.len() <= d.len()
                        &&& within_root(d, root@)
                    },
                all_separator_free(ts) ==> forall|i: int|
                    0 <= i < stack@.len() ==> {
                        let d = (#[trigger] stack@[i]).0@;
                        &&& no_matched_ancestor(d, root@, ts)
                        &&& !name_matches(d, ts)
                    },
                forall|i: int|
                    0 <= i < items@.len() ==> {
                        let it = #[trigger] items@[i];
                        &&& discovered_ok(it, category, *matcher, cwd@)
                        &&& it.kind == ItemKind::Directory
                        &&& name_matches(it.path@, targets.deep_view())
                        &&& ancestors_unexcluded(it.path@, root@, *matcher, cwd@)
                        &&& root@.len() <= it.path@.len()
                        &&& within_root(it.path@, root@)
                    },
                all_separator_free(ts) ==> forall|i: int|
                    0 <= i < items@.len() ==> no_matched_ancestor(
                        (#[trigger] items@[i]).path@,
                        root@,
                        ts,
                    ),
            decreases entries@.len() - j,
        {
            let is_dir = match entries[j].kind {
                EntryKind::Directory => true,
                _ => false,
            };
            if is_dir {
                let child = join_path(dir.as_str(), entries[j].name.as_str());
                proof {
                    lemma_ancestors_join(dir@, entries@[j as int].name@, root@, *matcher, cwd@);
                }
                if !is_excluded(child.as_str(), matcher, cwd) {
                    proof {
                        lemma_within_root_join(dir@, entries@[j as int].name@, root@);
                    }
                    if contains_str(targets, entries[j].name.as_str()) {
                        proof {
                            lemma_join_is_component_suffix(dir@, entries@[j as int].name@);
                            let k = choose|k: int|
                                0 <= k < targets.deep_view().len() && targets.deep_view()[k]
                                    == entries@[j as int].name@;
                            assert(is_component_suffix(child@, targets.deep_view()[k]));
                            if all_separator_free(ts) {
                                lemma_no_matched_ancestor_join(
                                    dir@,
                                    entries@[j as int].name@,
                                    root@,
                                    ts,
                                );
                            }
                        }
                        items.push(ScanItem::pending_directory(category, child));
                    } else if depth < MAX_SCAN_DEPTH - 1 {
                        proof {
                            if all_separator_free(ts) {
                                lemma_no_matched_ancestor_join(
                                    dir@,
                                    entries@[j as int].name@,
                                    root@,
                                    ts,
                                );
                                lemma_join_not_matched(dir@, entries@[j as int].name@, ts);
                            }
                        }
                        stack.push((child, depth + 1));
                    }
                }
            }
            j = j + 1;
        }
    }
    proof {
        if all_separator_free(ts) {
            assert forall|a: int, b: int|
                0 <= a < items@.len() && 0 <= b < items@.len() && a != b implies !strict_comp_prefix(
                (#[trigger] items@[a]).path@,
                (#[trigger] items@[b]).path@,
            ) by {
                let pa = items@[a].path@;
                let pb = items@[b].path@;
                if strict_comp_prefix(pa, pb) {
                    assert(pb.take(pa.len() as int) == pa);
                    assert(no_matched_ancestor(pb, root@, ts));
                    assert(!name_matches(pb.take(pa.len() as int), ts));
                    assert(name_matches(pa, ts));
                }
            }
        }
    }
    items
}

/// Fixed-path discovery: each listed path that exists and is not excluded
/// becomes one unmeasured directory item.
pub fn collect_fixed_dirs(
    paths: &Vec<String>,
    category: Category,
    matcher: &ExcludeMatcher,
    cwd: &str,
) -> (items: Vec<ScanItem>)
    ensures
        forall|i: int|
            0 <= i < items@.len() ==> {
                let it = #[trigger] items@[i];
                &&& discovered_ok(it, category, *matcher, cwd@)
                &&& it.kind == ItemKind::Directory
                &&& paths.deep_view().contains(it.path@)
            },
{
    let mut items: Vec<ScanItem> = Vec::new();
    let mut i: usize = 0;
    while i < paths.len()
        invariant
            i <= paths@.len(),
            forall|k: int|
                0 <= k < items@.len() ==> {
                    let it = #[trigger] items@[k];
                    &&& discovered_ok(it, category, *matcher, cwd@)
                    &&& it.kind == ItemKind::Directory
                    &&& paths.deep_view().contains(it.path@)
                },
        decreases paths@.len() - i,
    {
        if !is_excluded(paths[i].as_str(), matcher, cwd) && path_exists(paths[i].as_str()) {
            proof {
                assert(paths.deep_view()[i as int] == paths@[i as int]@);
            }
            items.push(ScanItem::pending_directory(category, paths[i].clone()));
        }
        i = i + 1;
    }
    items
}

fn push_name(v: &mut Vec<String>, s: &str)
    ensures
        final(v).deep_view() =~= old(v).deep_view().push(s@),
{
    let ghost pre = v.deep_view();
    v.push(s.to_owned());
    proof {
        assert(v.deep_view() =~= pre.push(s@));
    }
}

/// The directory names the Python scanner looks for.
pub open spec fn python_target_names() -> Seq<Seq<char>> {
    seq![
        "__pycache__"@,
        ".pytest_cache"@,
        ".ruff_cache"@,
        ".mypy_cache"@,
        ".venv"@,
        ".uv-cache"@,
    ]
}

pub fn python_targets() -> (v: Vec<String>)
    ensures
        v.deep_view() =~= python_target_names(),
        all_separator_free(python_target_names()),
{
    proof {
        reveal_strlit("__pycache__");
        reveal_strlit(".pytest_cache");
        reveal_strlit(".ruff_cache");
        reveal_strlit(".mypy_cache");
        reveal_strlit(".venv");
        reveal_strlit(".uv-cache");
    }
    let mut v: Vec<String> = Vec::new();
    push_name(&mut v, "__pycache__");
    push_name(&mut v, ".pytest_cache");
    push_name(&mut v, ".ruff_cache");
    push_name(&mut v, ".mypy_cache");
    push_name(&mut v, ".venv");
    push_name(&mut v, ".uv-cache");
    v
}

/// The directory names the Rust scanner looks for.
pub open spec fn rust_target_names() -> Seq<Seq<char>> {
    seq!["target"@]
}

pub fn rust_targets() -> (v: Vec<String>)
    ensures
        v.deep_view() =~= rust_target_names(),
        all_separator_free(rust_target_names()),
{
    proof {
        reveal_strlit("target");
    }
    let mut v: Vec<String> = Vec::new();
    push_name(&mut v, "target");
    v
}

/// The directory names the NodeJS scanner looks for.
pub open spec fn nodejs_target_names() -> Seq<Seq<char>> {
    seq!["node_modules"@, ".next"@, ".nuxt"@, ".svelte-kit"@]
}

pub fn nodejs_targets() -> (v: Vec<String>)
    ensures
        v.deep_view() =~= nodejs_target_names(),
        all_separator_free(nodejs_target_names()),
{
    proof {
        reveal_strlit("node_modules");
        reveal_strlit(".next");
        reveal_strlit(".nuxt");
        reveal_strlit(".svelte-kit");
    }
    let mut v: Vec<String> = Vec::new();
    push_name(&mut v, "node_modules");
    push_name(&mut v, ".next");
    push_name(&mut v, ".nuxt");
    push_name(&mut v, ".svelte-kit");
    v
}

/// The fixed Homebrew cache locations, relative to the home directory where
/// one is known.
pub open spec fn brew_paths_spec(home: Option<String>) -> Seq<Seq<char>> {
    match home {
        Option::Some(h) => seq![
            join_spec(h@, "Library/Caches/Homebrew"@),
            "/opt/homebrew/Library/Caches"@,
            "/usr/local/Homebrew/Library/Logs"@,
        ],
        Option::None => seq!["/opt/homebrew/Library/Caches"@, "/usr/local/Homebrew/Library/Logs"@],
    }
}

pub fn brew_paths(home: &Option<String>) -> (v: Vec<String>)
    ensures
        v.deep_view() =~= brew_paths_spec(*home),
{
    let mut v: Vec<String> = Vec::new();
    match home {
        Some(h) => {
            let ghost pre = v.deep_view();
            v.push(join_path(h.as_str(), "Library/Caches/Homebrew"));
            proof {
                assert(v.deep_view() =~= pre.push(
                    join_spec(h@, "Library/Caches/Homebrew"@),
                ));
            }
        },
        None => {},
    }
    push_name(&mut v, "/opt/homebrew/Library/Caches");
    push_name(&mut v, "/usr/local/Homebrew/Library/Logs");
    v
}

/// The fixed global Xcode cache locations under a home directory.
pub open spec fn xcode_global_spec(h: Seq<char>) -> Seq<Seq<char>> {
    seq![
        join_spec(h, "Library/Developer/Xcode/DerivedData"@),
        join_spec(h, "Library/Caches/com.apple.dt.Xcode"@),
        join_spec(h, "Library/Developer/Xcode/DocumentationCache"@),
        join_spec(h, "Library/Developer/Xcode/DocumentationIndex"@),
        join_spec(h, "Library/Developer/Xcode/UserData/Previews"@),
        join_spec(h, "Library/Caches/org.swift.swiftpm"@),
        join_spec(h, "Library/org.swift.swiftpm"@),
        join_spec(h, "Library/Developer/CoreSimulator/Caches"@),
    ]
}

fn push_joined(v: &mut Vec<String>, h: &str, rest: &str)
    ensures
        final(v).deep_view() =~= old(v).deep_view().push(join_spec(h@, rest@)),
{
    let ghost pre = v.deep_view();
    v.push(join_path(h, rest));
    proof {
        assert(v.deep_view() =~= pre.push(join_spec(h@, rest@)));
    }
}

pub fn xcode_global_paths(home: &Option<String>) -> (v: Vec<String>)
    ensures
        home matches Some(h) ==> v.deep_view() =~= xcode_global_spec(h@),
        home is None ==> v.deep_view() =~= Seq::<Seq<char>>::empty(),
{
    let mut v: Vec<String> = Vec::new();
    match home {
        Some(h) => {
            push_joined(&mut v, h.as_str(), "Library/Developer/Xcode/DerivedData");
            push_joined(&mut v, h.as_str(), "Library/Caches/com.apple.dt.Xcode");
            push_joined(&mut v, h.as_str(), "Library/Developer/Xcode/DocumentationCache");
            push_joined(&mut v, h.as_str(), "Library/Developer/Xcode/DocumentationIndex");
            push_joined(&mut v, h.as_str(), "Library/Developer/Xcode/UserData/Previews");
            push_joined(&mut v, h.as_str(), "Library/Caches/org.swift.swiftpm");
            push_joined(&mut v, h.as_str(), "Library/org.swift.swiftpm");
            push_joined(&mut v, h.as_str(), "Library/Developer/CoreSimulator/Caches");
        },
        None => {},
    }
    v
}

/// The artifact names the Xcode scanner can report from a local walk.
pub open spec fn xcode_local_names() -> Seq<Seq<char>> {
    seq!["DerivedData"@, ".build"@, ".swiftpm"@, "Package.resolved"@]
}

/// What the local Xcode walk discovers: an unmeasured, unexcluded item that
/// is a known local artifact by name.
pub open spec fn is_xcode_local_item(it: ScanItem, matcher: ExcludeMatcher, cwd: Seq<char>) -> bool {
    &&& discovered_ok(it, Category::Xcode, matcher, cwd)
    &&& name_matches(it.path@, xcode_local_names())
}

/// What every Xcode discovery satisfies: an unmeasured, unexcluded item that
/// is either a known local artifact by name or one of the fixed global cache
/// locations.
pub open spec fn is_xcode_item(
    it: ScanItem,
    matcher: ExcludeMatcher,
    cwd: Seq<char>,
    home: Option<String>,
) -> bool {
    &&& discovered_ok(it, Category::Xcode, matcher, cwd)
    &&& (name_matches(it.path@, xcode_local_names()) || (home matches Some(h)
        && xcode_global_spec(h@).contains(it.path@)))
}

/// Reports one package build artifact beside a package manifest, when it
/// exists and is not excluded. Existing items are untouched; anything added
/// is a local artifact inside the walked root.
fn add_xcode_artifact(
    items: &mut Vec<ScanItem>,
    parent: &str,
    name: &str,
    matcher: &ExcludeMatcher,
    cwd: &str,
    rootp: Ghost<Seq<char>>,
)
    requires
        xcode_local_names().contains(name@),
        within_root(parent@, rootp@),
    ensures
        final(items)@.len() >= old(items)@.len(),
        forall|i: int| 0 <= i < old(items)@.len() ==> final(items)@[i] == old(items)@[i],
        forall|i: int|
            old(items)@.len() <= i < final(items)@.len() ==> is_xcode_local_item(
                #[trigger] final(items)@[i],
                *matcher,
                cwd@,
            ) && within_root(final(items)@[i].path@, rootp@),
{
    let apath = join_path(parent, name);
    match stat_path(apath.as_str()) {
        Some(e) => {
            if !is_excluded(apath.as_str(), matcher, cwd) {
                let kind = match e.kind {
                    EntryKind::File => ItemKind::File,
                    _ => ItemKind::Directory,
                };
                proof {
                    lemma_join_is_component_suffix(parent@, name@);
                    lemma_within_root_join(parent@, name@, rootp@);
                    let k = choose|k: int|
                        0 <= k < xcode_local_names().len() && xcode_local_names()[k] == name@;
                    assert(is_component_suffix(apath@, xcode_local_names()[k]));
                }
                items.push(ScanItem { category: Category::Xcode, path: apath, size: None, kind });
            }
        },
        None => {},
    }
}

/// Discovery for the Xcode category: walks the roots for `DerivedData`
/// directories and for package build artifacts gated on a `Package.swift`
/// manifest (each manifest directory handled once), and, outside
/// current-directory-only mode, checks the fixed global cache locations.
pub fn xcode_scan(
    roots: &Vec<String>,
    current: bool,
    matcher: &ExcludeMatcher,
    home: &Option<String>,
    cwd: &str,
) -> (items: Vec<ScanItem>)
    ensures
        forall|i: int|
            0 <= i < items@.len() ==> is_xcode_item(#[trigger] items@[i], *matcher, cwd@, *home),
        // Current-directory-only mode never probes the global cache paths:
        // everything reported is then a local artifact by name.
        current ==> forall|i: int|
            0 <= i < items@.len() ==> is_xcode_local_item(#[trigger] items@[i], *matcher, cwd@),
        // Every item lies inside one of the given roots, or — outside
        // current-directory-only mode — is one of the fixed global cache
        // paths. With no roots, a current-mode scan reports nothing.
        forall|i: int|
            0 <= i < items@.len() ==> (within_some_root(
                (#[trigger] items@[i]).path@,
                roots.deep_view(),
            ) || (!current && (home matches Some(h) && xcode_global_spec(h@).contains(
                items@[i].path@,
            )))),
{
    let mut items: Vec<ScanItem> = Vec::new();
    let mut processed: Vec<String> = Vec::new();
    let mut r: usize = 0;
    while r < roots.len()
        invariant
            r <= roots@.len(),
            forall|i: int|
                0 <= i < items@.len() ==> is_xcode_local_item(#[trigger] items@[i], *matcher, cwd@),
            forall|i: int|
                0 <= i < items@.len() ==> within_some_root(
                    (#[trigger] items@[i]).path@,
                    roots.deep_view().take(r as int),
                ),
        decreases roots@.len() - r,
    {
        let ghost before = items@;
        xcode_scan_root(&mut items, &mut processed, roots[r].as_str(), matcher, cwd);
        proof {
            let ghost rv = roots.deep_view();
            assert forall|i: int| 0 <= i < items@.len() implies within_some_root(
                (#[trigger] items@[i]).path@,
                rv.take(r + 1),
            ) by {
                if i < before.len() {
                    assert(items@[i] == before[i]);
                    assert(within_some_root(before[i].path@, rv.take(r as int)));
                    let w = choose|w: int|
                        0 <= w < rv.take(r as int).len() && within_root(
                            before[i].path@,
                            rv.take(r as int)[w],
                        );
                    assert(rv.take(r + 1)[w] == rv.take(r as int)[w]);
                    assert(within_root(items@[i].path@, rv.take(r + 1)[w]));
                } else {
                    assert(within_root(items@[i].path@, roots@[r as int]@));
                    assert(rv.take(r + 1)[r as int] == roots@[r as int]@);
                    assert(within_root(items@[i].path@, rv.take(r + 1)[r as int]));
                }
            }
        }
        r = r + 1;
    }
    proof {
        assert(roots.deep_view().take(roots@.len() as int) =~= roots.deep_view());
    }
    if current {
        return items;
    }
    let globals = xcode_global_paths(home);
    let mut g: usize = 0;
    while g < globals.len()
        invariant
            !current,
            home matches Some(h) ==> globals.deep_view() =~= xcode_global_spec(h@),
            home is None ==> globals.deep_view() =~= Seq::<Seq<char>>::empty(),
            forall|i: int|
                0 <= i < items@.len() ==> is_xcode_item(
                    #[trigger] items@[i],
                    *matcher,
                    cwd@,
                    *home,
                ),
            forall|i: int|
                0 <= i < items@.len() ==> (within_some_root(
                    (#[trigger] items@[i]).path@,
                    roots.deep_view(),
                ) || (!current && (home matches Some(h) && xcode_global_spec(h@).contains(
                    items@[i].path@,
                )))),
        decreases globals@.len() - g,
    {
        match stat_path(globals[g].as_str()) {
            Some(e) => {
                if !is_excluded(globals[g].as_str(), matcher, cwd) {
                    let kind = match e.kind {
                        EntryKind::File => ItemKind::File,
                        _ => ItemKind::Directory,
                    };
                    proof {
                        assert(globals.deep_view()[g as int] == globals@[g as int]@);
                    }
                    items.push(
                        ScanItem {
                            category: Category::Xcode,
                            path: globals[g].clone(),
                            size: None,
                            kind,
                        },
                    );
                }
            },
            None => {},
        }
        g = g + 1;
    }
    items
}

/// One root of the local Xcode walk. Existing items are untouched;
/// anything added is a local artifact inside this root.
fn xcode_scan_root(
    items: &mut Vec<ScanItem>,
    processed: &mut Vec<String>,
    root: &str,
    matcher: &ExcludeMatcher,
    cwd: &str,
)
    ensures
        final(items)@.len() >= old(items)@.len(),
        forall|i: int| 0 <= i < old(items)@.len() ==> final(items)@[i] == old(items)@[i],
        forall|i: int|
            old(items)@.len() <= i < final(items)@.len() ==> is_xcode_local_item(
                #[trigger] final(items)@[i],
                *matcher,
                cwd@,
            ) && within_root(final(items)@[i].path@, root@),
{
    let ghost pre = old(items)@;
    if is_excluded(root, matcher, cwd) {
        return ;
    }
    let root_is_dir = match stat_path(root) {
        Some(e) => match e.kind {
            EntryKind::Directory => true,
            _ => false,
        },
        None => false,
    };
    if !root_is_dir {
        return ;
    }
    let base = basename(root);
    if str_eq(base.as_str(), "DerivedData") {
        proof {
            assert(xcode_local_names()[0] == "DerivedData"@);
            assert(is_component_suffix(root@, xcode_local_names()[0]));
        }
        items.push(
            ScanItem {
                category: Category::Xcode,
                path: root.to_owned(),
                size: None,
                kind: ItemKind::Directory,
            },
        );
        return ;
    }
    let mut stack: Vec<(String, usize)> = Vec::new();
    stack.push((root.to_owned(), 0));
    let mut fuel: u64 = WALK_FUEL;
    while stack.len() > 0 && fuel > 0
        invariant
            pre.len() <= items@.len(),
            forall|i: int| 0 <= i < pre.len() ==> items@[i] == pre[i],
            forall|i: int|
                0 <= i < stack@.len() ==> within_root((#[trigger] stack@[i]).0@, root@),
            forall|i: int|
                pre.len() <= i < items@.len() ==> is_xcode_local_item(
                    #[trigger] items@[i],
                    *matcher,
                    cwd@,
                ) && within_root(items@[i].path@, root@),
        decreases fuel,
    {
        fuel = fuel - 1;
        let top = stack.pop().unwrap();
        let dir = top.0;
        let depth = top.1;
        let entries = read_dir_entries(dir.as_str());
        let mut j: usize = 0;
        while j < entries.len()
            invariant
                within_root(dir@, root@),
                pre.len() <= items@.len(),
                forall|i: int| 0 <= i < pre.len() ==> items@[i] == pre[i],
                forall|i: int|
                    0 <= i < stack@.len() ==> within_root((#[trigger] stack@[i]).0@, root@),
                forall|i: int|
                    pre.len() <= i < items@.len() ==> is_xcode_local_item(
                        #[trigger] items@[i],
                        *matcher,
                        cwd@,
                    ) && within_root(items@[i].path@, root@),
            decreases entries@.len() - j,
        {
            match entries[j].kind {
                EntryKind::Directory => {
                    let child = join_path(dir.as_str(), entries[j].name.as_str());
                    proof {
                        lemma_within_root_join(dir@, entries@[j as int].name@, root@);
                    }
                    if !is_excluded(child.as_str(), matcher, cwd) {
                        if str_eq(entries[j].name.as_str(), "DerivedData") {
                            proof {
                                lemma_join_is_component_suffix(dir@, entries@[j as int].name@);
                                assert(xcode_local_names()[0] == entries@[j as int].name@);
                                assert(is_component_suffix(child@, xcode_local_names()[0]));
                            }
                            items.push(
                                ScanItem {
                                    category: Category::Xcode,
                                    path: child,
                                    size: None,
                                    kind: ItemKind::Directory,
                                },
                            );
                        } else if depth < MAX_SCAN_DEPTH - 1 {
                            stack.push((child, depth + 1));
                        }
                    }
                },
                EntryKind::File => {
                    let child = join_path(dir.as_str(), entries[j].name.as_str());
                    if !is_excluded(child.as_str(), matcher, cwd) && str_eq(
                        entries[j].name.as_str(),
                        "Package.swift",
                    ) && !contains_str(processed, dir.as_str()) {
                        processed.push(dir.clone());
                        proof {
                            assert(xcode_local_names().contains(".build"@));
                            assert(xcode_local_names().contains(".swiftpm"@));
                            assert(xcode_local_names().contains("Package.resolved"@));
                        }
                        add_xcode_artifact(items, dir.as_str(), ".build", matcher, cwd, Ghost(root@));
                        add_xcode_artifact(
                            items,
                            dir.as_str(),
                            ".swiftpm",
                            matcher,
                            cwd,
                            Ghost(root@),
                        );
                        add_xcode_artifact(
                            items,
                            dir.as_str(),
                            "Package.resolved",
                            matcher,
                            cwd,
                            Ghost(root@),
                        );
                    }
                },
                EntryKind::Other => {},
            }
            j = j + 1;
        }
    }
}

/// The preview label for a target name found `n` times.
pub open spec fn count_label_spec(name: Seq<char>, n: int) -> Seq<char> {
    name + " ("@ + crate::strutil::dec_spec(n) + " location"@ + (if n == 1 {
        Seq::<char>::empty()
    } else {
        "s"@
    }) + " found)"@
}

pub fn count_label(name: &str, n: u64) -> (r: String)
    ensures
        r@ == count_label_spec(name@, n as int),
{
    let mut s = name.to_owned();
    s.append(" (");
    let d = crate::strutil::u64_to_dec(n);
    s.append(d.as_str());
    s.append(" location");
    if n != 1 {
        s.append("s");
    }
    s.append(" found)");
    proof {
        assert(s@ =~= count_label_spec(name@, n as int));
    }
    s
}

/// The preview label for a fixed path that exists.
pub open spec fn exists_label_spec(path: Seq<char>) -> Seq<char> {
    path + " (exists)"@
}

pub fn exists_label(path: &str) -> (r: String)
    ensures
        r@ == exists_label_spec(path@),
{
    let mut s = path.to_owned();
    s.append(" (exists)");
    s
}

/// Saturating increment of a counter.
fn sat_inc(n: u64) -> (r: u64)
    ensures
        n < u64::MAX ==> r == n + 1,
        n == u64::MAX ==> r == n,
        r >= 1,
{
    if n < u64::MAX {
        n + 1
    } else {
        n
    }
}

/// One label a named-directory preview can produce: a count of at least one
/// for one of the scanner's target names.
pub open spec fn generic_label_ok(l: Seq<char>, targets: Seq<Seq<char>>) -> bool {
    exists|k: int, n: int|
        0 <= k < targets.len() && n >= 1 && l == count_label_spec(targets[k], n)
}

/// How many of the items carry `t` as the final component of their path.
pub open spec fn count_with_name(items: Seq<ScanItem>, t: Seq<char>) -> int
    decreases items.len(),
{
    if items.len() == 0 {
        0
    } else {
        count_with_name(items.drop_last(), t) + if crate::strutil::basename_spec(
            items.last().path@,
        ) == t {
            1int
        } else {
            0int
        }
    }
}

proof fn lemma_count_with_name_le_len(items: Seq<ScanItem>, t: Seq<char>)
    ensures
        0 <= count_with_name(items, t) <= items.len(),
    decreases items.len(),
{
    if items.len() > 0 {
        lemma_count_with_name_le_len(items.drop_last(), t);
    }
}

/// The preview labels for an item list: in target order, one label per
/// target name detected at least once, carrying its detection count.
pub open spec fn target_labels_spec(items: Seq<ScanItem>, targets: Seq<Seq<char>>) -> Seq<
    Seq<char>,
>
    decreases targets.len(),
{
    if targets.len() == 0 {
        Seq::<Seq<char>>::empty()
    } else {
        let n = count_with_name(items, targets.last());
        target_labels_spec(items, targets.drop_last()) + if n >= 1 {
            seq![count_label_spec(targets.last(), n)]
        } else {
            Seq::<Seq<char>>::empty()
        }
    }
}

/// Every emitted label names one of the targets with a positive count.
proof fn lemma_target_labels_ok(items: Seq<ScanItem>, targets: Seq<Seq<char>>)
    ensures
        forall|i: int|
            0 <= i < target_labels_spec(items, targets).len() ==> generic_label_ok(
                #[trigger] target_labels_spec(items, targets)[i],
                targets,
            ),
    decreases targets.len(),
{
    if targets.len() > 0 {
        lemma_target_labels_ok(items, targets.drop_last());
        let ls = target_labels_spec(items, targets);
        let rest = target_labels_spec(items, targets.drop_last());
        let n = count_with_name(items, targets.last());
        assert forall|i: int| 0 <= i < ls.len() implies generic_label_ok(
            #[trigger] ls[i],
            targets,
        ) by {
            if i < rest.len() {
                assert(ls[i] == rest[i]);
                assert(generic_label_ok(rest[i], targets.drop_last()));
                let (k, m) = choose|k: int, m: int|
                    0 <= k < targets.drop_last().len() && m >= 1 && rest[i] == count_label_spec(
                        targets.drop_last()[k],
                        m,
                    );
                assert(targets.drop_last()[k] == targets[k]);
                assert(ls[i] == count_label_spec(targets[k], m));
            } else {
                assert(n >= 1);
                assert(ls[i] == count_label_spec(targets[targets.len() - 1], n));
            }
        }
    }
}

/// The preview labels for a given item list: exactly `target_labels_spec`,
/// so the count behind each label is the number of items whose final path
/// component is that target name, and the labels come in target order.
pub fn target_count_labels(items: &Vec<ScanItem>, targets: &Vec<String>) -> (labels: Vec<String>)
    ensures
        labels.deep_view() =~= target_labels_spec(items@, targets.deep_view()),
{
    let mut labels: Vec<String> = Vec::new();
    let mut k: usize = 0;
    while k < targets.len()
        invariant
            k <= targets@.len(),
            labels.deep_view() =~= target_labels_spec(
                items@,
                targets.deep_view().take(k as int),
            ),
        decreases targets@.len() - k,
    {
        let ghost ts = targets.deep_view();
        let mut n: u64 = 0;
        let mut i: usize = 0;
        while i < items.len()
            invariant
                k < targets@.len(),
                i <= items@.len(),
                n == count_with_name(items@.take(i as int), targets.deep_view()[k as int]),
                n <= i,
            decreases items@.len() - i,
        {
            proof {
                assert(items@.take(i + 1).drop_last() =~= items@.take(i as int));
                assert(items@.take(i + 1).last() == items@[i as int]);
            }
            let base = basename(items[i].path.as_str());
            if str_eq(base.as_str(), targets[k].as_str()) {
                n = n + 1;
            }
            i = i + 1;
        }
        proof {
            assert(items@.take(items@.len() as int) =~= items@);
            assert(ts.take(k + 1).drop_last() =~= ts.take(k as int));
            assert(ts.take(k + 1).last() == ts[k as int]);
        }
        if n > 0 {
            let label = count_label(targets[k].as_str(), n);
            let ghost pre = labels.deep_view();
            labels.push(label);
            proof {
                assert(labels.deep_view() =~= pre.push(count_label_spec(ts[k as int], n as int)));
                assert(labels.deep_view() =~= target_labels_spec(items@, ts.take(k + 1)));
            }
        } else {
            proof {
                assert(target_labels_spec(items@, ts.take(k + 1)) =~= target_labels_spec(
                    items@,
                    ts.take(k as int),
                ));
            }
        }
        k = k + 1;
    }
    proof {
        assert(targets.deep_view().take(targets@.len() as int) =~= targets.deep_view());
    }
    labels
}

/// The character sequences of a list of strings, in order.
pub open spec fn views_of(ss: Seq<String>) -> Seq<Seq<char>>
    decreases ss.len(),
{
    if ss.len() == 0 {
        Seq::<Seq<char>>::empty()
    } else {
        views_of(ss.drop_last()).push(ss.last()@)
    }
}

proof fn lemma_views_of(ss: Seq<String>)
    ensures
        views_of(ss).len() == ss.len(),
        forall|i: int| 0 <= i < ss.len() ==> views_of(ss)[i] == (#[trigger] ss[i])@,
    decreases ss.len(),
{
    if ss.len() > 0 {
        lemma_views_of(ss.drop_last());
        assert forall|i: int| 0 <= i < ss.len() implies views_of(ss)[i] == (#[trigger] ss[i])@ by {
            if i < ss.len() - 1 {
                assert(views_of(ss)[i] == views_of(ss.drop_last())[i]);
                assert(ss.drop_last()[i] == ss[i]);
            } else {
                assert(views_of(ss)[i] == ss.last()@);
            }
        }
    }
}

/// Existence-only preview for a named-directory scanner: the detected items
/// of one walk, labelled per target name with its detection count, the
/// labels sorted ascending by target name. The detections themselves depend
/// on the disk; the labels are exactly `target_labels_spec` of some
/// properly discovered item list over the ascending ordering of the target
/// names.
pub fn generic_list_targets(
    roots: &Vec<String>,
    targets: &Vec<String>,
    category: Category,
    matcher: &ExcludeMatcher,
    cwd: &str,
) -> (labels: Vec<String>)
    ensures
        forall|i: int|
            0 <= i < labels@.len() ==> generic_label_ok(
                (#[trigger] labels@[i])@,
                targets.deep_view(),
            ),
        exists|found: Seq<ScanItem>, sorted: Seq<String>|
            {
                &&& (forall|i: int|
                    0 <= i < found.len() ==> {
                        let it = #[trigger] found[i];
                        &&& discovered_ok(it, category, *matcher, cwd@)
                        &&& it.kind == ItemKind::Directory
                        &&& name_matches(it.path@, targets.deep_view())
                    })
                &&& sorted.to_multiset() == targets@.to_multiset()
                &&& (forall|i: int, j: int|
                    0 <= i < j < sorted.len() ==> crate::strutil::lex_le(
                        (#[trigger] sorted[i])@,
                        (#[trigger] sorted[j])@,
                    ))
                &&& labels.deep_view() =~= target_labels_spec(found, views_of(sorted))
            },
{
    let mut items: Vec<ScanItem> = Vec::new();
    let mut r: usize = 0;
    while r < roots.len()
        invariant
            forall|i: int|
                0 <= i < items@.len() ==> {
                    let it = #[trigger] items@[i];
                    &&& discovered_ok(it, category, *matcher, cwd@)
                    &&& it.kind == ItemKind::Directory
                    &&& name_matches(it.path@, targets.deep_view())
                },
        decreases roots@.len() - r,
    {
        let mut found = find_target_dirs(roots[r].as_str(), targets, category, matcher, cwd);
        items.append(&mut found);
        r = r + 1;
    }
    let cloned = crate::fmt::clone_strings(targets);
    let ghost cloned_view = cloned@;
    let sorted = crate::strutil::sort_names_ascending(cloned);
    let labels = target_count_labels(&items, &sorted);
    proof {
        broadcast use vstd::seq_lib::group_to_multiset_ensures;

        assert(cloned_view.to_multiset() == targets@.to_multiset());
        assert(sorted@.to_multiset() == targets@.to_multiset());
        lemma_views_of(sorted@);
        assert(views_of(sorted@) =~= sorted.deep_view());
        assert(labels.deep_view() =~= target_labels_spec(items@, views_of(sorted@)));
        lemma_target_labels_ok(items@, sorted.deep_view());
        assert forall|i: int| 0 <= i < labels@.len() implies generic_label_ok(
            (#[trigger] labels@[i])@,
            targets.deep_view(),
        ) by {
            assert(labels.deep_view()[i] == labels@[i]@);
            assert(generic_label_ok(target_labels_spec(items@, sorted.deep_view())[i],
                sorted.deep_view()));
            let (k, n) = choose|k: int, n: int|
                0 <= k < sorted.deep_view().len() && n >= 1 && labels@[i]@ == count_label_spec(
                    sorted.deep_view()[k],
                    n,
                );
            assert(sorted@.contains(sorted@[k]));
            assert(sorted@.to_multiset().count(sorted@[k]) > 0);
            assert(targets@.to_multiset().count(sorted@[k]) > 0);
            assert(targets@.contains(sorted@[k]));
            let w = choose|w: int| 0 <= w < targets@.len() && targets@[w] == sorted@[k];
            assert(targets.deep_view()[w] == sorted.deep_view()[k]);
        }
    }
    labels
}

/// One label the local half of the Xcode preview can produce: a count of at
/// least one for the local artifact detections.
pub open spec fn xcode_local_label_ok(l: Seq<char>) -> bool {
    exists|n: int|
        n >= 1 && (l == count_label_spec("DerivedData"@, n) || l == count_label_spec(
            "SwiftPM Projects (.build, .swiftpm, Package.resolved)"@,
            n,
        ))
}

/// One label the global half of the Xcode preview can produce: a fixed
/// global cache path that exists.
pub open spec fn xcode_global_label_ok(l: Seq<char>, home: Option<String>) -> bool {
    home matches Some(h) && exists|p: Seq<char>|
        xcode_global_spec(h@).contains(p) && l == exists_label_spec(p)
}

/// One label the Xcode preview can produce.
pub open spec fn xcode_label_ok(l: Seq<char>, home: Option<String>) -> bool {
    ||| xcode_local_label_ok(l)
    ||| xcode_global_label_ok(l, home)
}

/// The local head of the Xcode preview: at most one `DerivedData` count
/// label followed by at most one package-artifact count label, each present
/// exactly when its count is positive.
pub open spec fn xcode_head_spec(d: int, s: int) -> Seq<Seq<char>> {
    (if d >= 1 {
        seq![count_label_spec("DerivedData"@, d)]
    } else {
        Seq::<Seq<char>>::empty()
    }) + (if s >= 1 {
        seq![count_label_spec("SwiftPM Projects (.build, .swiftpm, Package.resolved)"@, s)]
    } else {
        Seq::<Seq<char>>::empty()
    })
}

/// Existence-only preview for the Xcode scanner: counts of local
/// `DerivedData` directories and package manifests, plus the global cache
/// locations that exist.
pub fn xcode_list_targets(
    roots: &Vec<String>,
    current: bool,
    matcher: &ExcludeMatcher,
    home: &Option<String>,
    cwd: &str,
) -> (labels: Vec<String>)
    ensures
        forall|i: int| 0 <= i < labels@.len() ==> xcode_label_ok((#[trigger] labels@[i])@, *home),
        // Current-directory-only mode never probes the global cache paths:
        // every label is then a local detection count.
        current ==> forall|i: int|
            0 <= i < labels@.len() ==> xcode_local_label_ok((#[trigger] labels@[i])@),
        // The list's shape: the two local count labels, each at most once,
        // then the global-path labels; nothing else.
        exists|d: int, s: int, tail: Seq<Seq<char>>|
            {
                &&& d >= 0
                &&& s >= 0
                &&& (forall|i: int|
                    0 <= i < tail.len() ==> xcode_global_label_ok(#[trigger] tail[i], *home))
                &&& labels.deep_view() =~= xcode_head_spec(d, s) + tail
            },
{
    let mut derived: u64 = 0;
    let mut swiftpm: u64 = 0;
    let mut r: usize = 0;
    while r < roots.len()
        decreases roots@.len() - r,
    {
        let counts = xcode_count_root(roots[r].as_str(), matcher, cwd);
        derived = if derived <= u64::MAX - counts.0 {
            derived + counts.0
        } else {
            u64::MAX
        };
        swiftpm = if swiftpm <= u64::MAX - counts.1 {
            swiftpm + counts.1
        } else {
            u64::MAX
        };
        r = r + 1;
    }
    let mut labels: Vec<String> = Vec::new();
    if derived > 0 {
        let label = count_label("DerivedData", derived);
        labels.push(label);
        proof {
            assert forall|i: int| 0 <= i < labels@.len() implies xcode_local_label_ok(
                (#[trigger] labels@[i])@,
            ) by {
                assert(labels@[i]@ == count_label_spec("DerivedData"@, derived as int));
                assert(derived as int >= 1);
            }
        }
    }
    if swiftpm > 0 {
        let ghost pre = labels@;
        let label = count_label("SwiftPM Projects (.build, .swiftpm, Package.resolved)", swiftpm);
        labels.push(label);
        proof {
            assert forall|i: int| 0 <= i < labels@.len() implies xcode_local_label_ok(
                (#[trigger] labels@[i])@,
            ) by {
                if i < pre.len() {
                    assert(labels@[i] == pre[i]);
                    assert(xcode_local_label_ok(pre[i]@));
                } else {
                    assert(labels@[i]@ == count_label_spec(
                        "SwiftPM Projects (.build, .swiftpm, Package.resolved)"@,
                        swiftpm as int,
                    ));
                    assert(swiftpm as int >= 1);
                }
            }
        }
    }
    let ghost head = labels.deep_view();
    proof {
        assert(head =~= xcode_head_spec(derived as int, swiftpm as int));
    }
    if current {
        proof {
            assert(labels.deep_view() =~= xcode_head_spec(derived as int, swiftpm as int)
                + Seq::<Seq<char>>::empty());
        }
        return labels;
    }
    let globals = xcode_global_paths(home);
    let mut g: usize = 0;
    while g < globals.len()
        invariant
            home matches Some(h) ==> globals.deep_view() =~= xcode_global_spec(h@),
            home is None ==> globals.deep_view() =~= Seq::<Seq<char>>::empty(),
            head.len() <= labels.deep_view().len(),
            labels.deep_view().take(head.len() as int) =~= head,
            forall|i: int|
                head.len() <= i < labels.deep_view().len() ==> xcode_global_label_ok(
                    #[trigger] labels.deep_view()[i],
                    *home,
                ),
            forall|i: int|
                0 <= i < labels@.len() ==> xcode_label_ok((#[trigger] labels@[i])@, *home),
        decreases globals@.len() - g,
    {
        if path_exists(globals[g].as_str()) && !is_excluded(globals[g].as_str(), matcher, cwd) {
            let ghost pre = labels@;
            let ghost pre_dv = labels.deep_view();
            let label = exists_label(globals[g].as_str());
            labels.push(label);
            proof {
                let h = home.unwrap();
                assert(globals.deep_view()[g as int] == globals@[g as int]@);
                assert(xcode_global_spec(h@).contains(globals@[g as int]@));
                assert(labels.deep_view().take(head.len() as int) =~= head);
                assert forall|i: int|
                    head.len() <= i < labels.deep_view().len() implies xcode_global_label_ok(
                    #[trigger] labels.deep_view()[i],
                    *home,
                ) by {
                    if i < pre_dv.len() {
                        assert(labels@[i] == pre[i]);
                        assert(labels.deep_view()[i] == pre_dv[i]);
                        assert(xcode_global_label_ok(pre_dv[i], *home));
                    } else {
                        assert(labels.deep_view()[i] == labels@[i]@);
                        assert(xcode_global_spec(h@).contains(globals@[g as int]@)
                            && labels.deep_view()[i] == exists_label_spec(globals@[g as int]@));
                    }
                }
                assert forall|i: int| 0 <= i < labels@.len() implies xcode_label_ok(
                    (#[trigger] labels@[i])@,
                    *home,
                ) by {
                    if i < pre.len() {
                        assert(labels@[i] == pre[i]);
                        assert(xcode_label_ok(pre[i]@, *home));
                    } else {
                        assert(xcode_global_spec(h@).contains(globals@[g as int]@) && labels@[i]@
                            == exists_label_spec(globals@[g as int]@));
                    }
                }
            }
        }
        g = g + 1;
    }
    proof {
        let ghost tail = labels.deep_view().skip(head.len() as int);
        assert(labels.deep_view() =~= head + tail);
        assert(labels.deep_view() =~= xcode_head_spec(derived as int, swiftpm as int) + tail);
    }
    labels
}

/// Counts, below one root, the `DerivedData` directories (outermost only)
/// and the package manifests.
fn xcode_count_root(root: &str, matcher: &ExcludeMatcher, cwd: &str) -> (counts: (u64, u64)) {
    let mut derived: u64 = 0;
    let mut swiftpm: u64 = 0;
    if is_excluded(root, matcher, cwd) {
        return (derived, swiftpm);
    }
    let root_is_dir = match stat_path(root) {
        Some(e) => match e.kind {
            EntryKind::Directory => true,
            _ => false,
        },
        None => false,
    };
    if !root_is_dir {
        return (derived, swiftpm);
    }
    let base = basename(root);
    if str_eq(base.as_str(), "DerivedData") {
        return (1, 0);
    }
    let mut stack: Vec<(String, usize)> = Vec::new();
    stack.push((root.to_owned(), 0));
    let mut fuel: u64 = WALK_FUEL;
    while stack.len() > 0 && fuel > 0
        decreases fuel,
    {
        fuel = fuel - 1;
        let top = stack.pop().unwrap();
        let dir = top.0;
        let depth = top.1;
        let entries = read_dir_entries(dir.as_str());
        let mut j: usize = 0;
        while j < entries.len()
            decreases entries@.len() - j,
        {
            match entries[j].kind {
                EntryKind::Directory => {
                    let child = join_path(dir.as_str(), entries[j].name.as_str());
                    if !is_excluded(child.as_str(), matcher, cwd) {
                        if str_eq(entries[j].name.as_str(), "DerivedData") {
                            derived = sat_inc(derived);
                        } else if depth < MAX_SCAN_DEPTH - 1 {
                            stack.push((child, depth + 1));
                        }
                    }
                },
                EntryKind::File => {
                    let child = join_path(dir.as_str(), entries[j].name.as_str());
                    if !is_excluded(child.as_str(), matcher, cwd) && str_eq(
                        entries[j].name.as_str(),
                        "Package.swift",
                    ) {
                        swiftpm = sat_inc(swiftpm);
                    }
                },
                EntryKind::Other => {},
            }
            j = j + 1;
        }
    }
    (derived, swiftpm)
}

/// One label the Homebrew preview can produce: one of the fixed cache paths,
/// marked as existing.
pub open spec fn brew_label_ok(l: Seq<char>, home: Option<String>) -> bool {
    exists|p: Seq<char>| brew_paths_spec(home).contains(p) && l == exists_label_spec(p)
}

/// Existence-only preview for the Homebrew scanner: the fixed cache paths
/// that exist and are not excluded.
pub fn brew_list_targets(matcher: &ExcludeMatcher, home: &Option<String>, cwd: &str) -> (labels:
    Vec<String>)
    ensures
        forall|i: int|
            0 <= i < labels@.len() ==> brew_label_ok((#[trigger] labels@[i])@, *home),
{
    let paths = brew_paths(home);
    let mut labels: Vec<String> = Vec::new();
    let mut i: usize = 0;
    while i < paths.len()
        invariant
            paths.deep_view() =~= brew_paths_spec(*home),
            forall|k: int|
                0 <= k < labels@.len() ==> brew_label_ok((#[trigger] labels@[k])@, *home),
        decreases paths@.len() - i,
    {
        if !is_excluded(paths[i].as_str(), matcher, cwd) && path_exists(paths[i].as_str()) {
            let ghost pre = labels@;
            let label = exists_label(paths[i].as_str());
            labels.push(label);
            proof {
                assert(paths.deep_view()[i as int] == paths@[i as int]@);
                assert(brew_paths_spec(*home)[i as int] == paths@[i as int]@);
                assert(brew_paths_spec(*home).contains(paths@[i as int]@));
                assert forall|k: int| 0 <= k < labels@.len() implies brew_label_ok(
                    (#[trigger] labels@[k])@,
                    *home,
                ) by {
                    if k < pre.len() {
                        assert(labels@[k] == pre[k]);
                        assert(brew_label_ok(pre[k]@, *home));
                    } else {
                        assert(brew_paths_spec(*home).contains(paths@[i as int]@) && labels@[k]@
                            == exists_label_spec(paths@[i as int]@));
                    }
                }
            }
        }
        i = i + 1;
    }
    labels
}

/// The closed set of scanner variants. The category set is fixed and small,
/// so the variants are a tagged union rather than an open interface.
pub enum Scanner {
    /// Walks the roots for a fixed set of directory names.
    Generic { category: Category, targets: Vec<String> },
    /// Walks the roots for build artifacts and checks global cache paths.
    Xcode { current: bool },
    /// Checks the fixed Homebrew cache paths.
    Brew,
}

impl Scanner {
    /// The category this scanner discovers for.
    pub open spec fn category_spec(self) -> Category {
        match self {
            Scanner::Generic { category, .. } => category,
            Scanner::Xcode { .. } => Category::Xcode,
            Scanner::Brew => Category::Brew,
        }
    }

    pub fn category(&self) -> (c: Category)
        ensures
            c == self.category_spec(),
    {
        match self {
            Scanner::Generic { category, .. } => *category,
            Scanner::Xcode { .. } => Category::Xcode,
            Scanner::Brew => Category::Brew,
        }
    }

    /// Discovery: every item carries this scanner's category, has no size
    /// yet, and is not an excluded path.
    pub fn scan(
        &self,
        roots: &Vec<String>,
        matcher: &ExcludeMatcher,
        home: &Option<String>,
        cwd: &str,
    ) -> (items: Vec<ScanItem>)
        ensures
            forall|i: int|
                0 <= i < items@.len() ==> discovered_ok(
                    #[trigger] items@[i],
                    self.category_spec(),
                    *matcher,
                    cwd@,
                ),
    {
        match self {
            Scanner::Generic { category, targets } => {
                let mut items: Vec<ScanItem> = Vec::new();
                let mut r: usize = 0;
                while r < roots.len()
                    invariant
                        forall|i: int|
                            0 <= i < items@.len() ==> discovered_ok(
                                #[trigger] items@[i],
                                *category,
                                *matcher,
                                cwd@,
                            ),
                    decreases roots@.len() - r,
                {
                    let mut found = find_target_dirs(
                        roots[r].as_str(),
                        targets,
                        *category,
                        matcher,
                        cwd,
                    );
                    items.append(&mut found);
                    r = r + 1;
                }
                items
            },
            Scanner::Xcode { current } => xcode_scan(roots, *current, matcher, home, cwd),
            Scanner::Brew => {
                let paths = brew_paths(home);
                collect_fixed_dirs(&paths, Category::Brew, matcher, cwd)
            },
        }
    }

    /// One label this scanner's preview can produce.
    pub open spec fn label_ok(self, l: Seq<char>, home: Option<String>) -> bool {
        match self {
            Scanner::Generic { targets, .. } => generic_label_ok(l, targets.deep_view()),
            Scanner::Xcode { .. } => xcode_label_ok(l, home),
            Scanner::Brew => brew_label_ok(l, home),
        }
    }

    /// Existence-only preview of this scanner's targets.
    pub fn list_targets(
        &self,
        roots: &Vec<String>,
        matcher: &ExcludeMatcher,
        home: &Option<String>,
        cwd: &str,
    ) -> (labels: Vec<String>)
        ensures
            forall|i: int|
                0 <= i < labels@.len() ==> self.label_ok((#[trigger] labels@[i])@, *home),
    {
        match self {
            Scanner::Generic { category, targets } => generic_list_targets(
                roots,
                targets,
                *category,
                matcher,
                cwd,
            ),
            Scanner::Xcode { current } => xcode_list_targets(roots, *current, matcher, home, cwd),
            Scanner::Brew => brew_list_targets(matcher, home, cwd),
        }
    }
}

/// The filesystem-backed scanners, in canonical category order. The Homebrew
/// scanner checks global paths and is left out of current-directory-only
/// mode; the container-engine category is no filesystem scanner at all.
pub fn get_scanners(current: bool) -> (v: Vec<Scanner>)
    ensures
        v@.len() == if current {
            4int
        } else {
            5int
        },
        v@[0] == (Scanner::Xcode { current }),
        v@[1].category_spec() == Category::Python,
        v@[2].category_spec() == Category::Rust,
        v@[3].category_spec() == Category::Nodejs,
        !current ==> v@[4].category_spec() == Category::Brew,
        forall|i: int| 0 <= i < v@.len() ==> (#[trigger] v@[i]).category_spec() != Category::Docker,
        current ==> forall|i: int|
            0 <= i < v@.len() ==> (#[trigger] v@[i]).category_spec() != Category::Brew,
{
    let mut v: Vec<Scanner> = Vec::new();
    v.push(Scanner::Xcode { current });
    v.push(Scanner::Generic { category: Category::Python, targets: python_targets() });
    v.push(Scanner::Generic { category: Category::Rust, targets: rust_targets() });
    v.push(Scanner::Generic { category: Category::Nodejs, targets: nodejs_targets() });
    if !current {
        v.push(Scanner::Brew);
    }
    v
}

/// The filesystem discovery pass: runs every requested scanner, measures the
/// discovered items, and merges them into a report keyed by category. A
/// category appears in the report only if it was requested and discovered at
/// least one item, and never the container-engine category.
pub fn scan_filesystem(
    categories: &Vec<Category>,
    roots: &Vec<String>,
    current: bool,
    matcher: &ExcludeMatcher,
    home: &Option<String>,
    cwd: &str,
) -> (report: ScanReport)
    ensures
        report.wf(),
        forall|c: Category|
            #[trigger] report.present(c) ==> categories@.contains(c) && c != Category::Docker,
        forall|c: Category| #[trigger] report.present(c) ==> report.items_of(c).len() > 0,
        current ==> !report.present(Category::Brew),
        forall|c: Category, i: int|
            0 <= i < report.items_of(c).len() ==> !matcher.excludes(
                resolve_path_spec((#[trigger] report.items_of(c)[i]).path@, cwd@),
            ) && (#[trigger] report.items_of(c)[i]).size is Some,
{
    let scanners = get_scanners(current);
    let mut report = ScanReport::new();
    let mut s: usize = 0;
    while s < scanners.len()
        invariant
            report.wf(),
            current ==> forall|i: int|
                0 <= i < scanners@.len() ==> (#[trigger] scanners@[i]).category_spec()
                    != Category::Brew,
            forall|i: int|
                0 <= i < scanners@.len() ==> (#[trigger] scanners@[i]).category_spec()
                    != Category::Docker,
            forall|c: Category|
                #[trigger] report.present(c) ==> categories@.contains(c) && c != Category::Docker
                    && (current ==> c != Category::Brew),
            forall|c: Category| #[trigger] report.present(c) ==> report.items_of(c).len() > 0,
            forall|c: Category, i: int|
                0 <= i < report.items_of(c).len() ==> !matcher.excludes(
                    resolve_path_spec((#[trigger] report.items_of(c)[i]).path@, cwd@),
                ) && (#[trigger] report.items_of(c)[i]).size is Some,
        decreases scanners@.len() - s,
    {
        let category = scanners[s].category();
        if crate::model::contains_category(categories, category) {
            let mut items = scanners[s].scan(roots, matcher, home, cwd);
            let ghost discovered = items@;
            compute_sizes(&mut items, matcher, cwd);
            let ghost scanned = items@;
            proof {
                assert forall|j: int| 0 <= j < scanned.len() implies (#[trigger] scanned[j]).category
                    == category && scanned[j].size is Some && !matcher.excludes(
                    resolve_path_spec(scanned[j].path@, cwd@),
                ) by {
                    assert(discovered_ok(discovered[j], category, *matcher, cwd@));
                }
            }
            if items.len() > 0 {
                let ghost pre = report;
                report.add_items(category, items);
                proof {
                    assert forall|c: Category| #[trigger] report.present(c) implies
                        categories@.contains(c) && c != Category::Docker && (current ==> c
                        != Category::Brew) by {
                        if c != category {
                            assert(report.slot(c) == pre.slot(c));
                            assert(report.present(c) == pre.present(c));
                            assert(pre.present(c) ==> categories@.contains(c) && c
                                != Category::Docker && (current ==> c != Category::Brew));
                        }
                    }
                    assert forall|c: Category| #[trigger] report.present(c) implies
                        report.items_of(c).len() > 0 by {
                        if c == category {
                            assert(report.items_of(c) =~= pre.items_of(c) + scanned);
                        } else {
                            assert(report.slot(c) == pre.slot(c));
                            assert(report.present(c) == pre.present(c));
                            assert(report.items_of(c) == pre.items_of(c));
                            assert(pre.present(c) ==> pre.items_of(c).len() > 0);
                        }
                    }
                    assert forall|c: Category, i: int|
                        0 <= i < report.items_of(c).len() implies !matcher.excludes(
                        resolve_path_spec((#[trigger] report.items_of(c)[i]).path@, cwd@),
                    ) && (#[trigger] report.items_of(c)[i]).size is Some by {
                        if c == category {
                            assert(report.items_of(c) =~= pre.items_of(c) + scanned);
                            if i < pre.items_of(c).len() {
                                assert(report.items_of(c)[i] == pre.items_of(c)[i]);
                            } else {
                                assert(report.items_of(c)[i] == scanned[i - pre.items_of(
                                    c,
                                ).len()]);
                            }
                        } else {
                            assert(report.slot(c) == pre.slot(c));
                            assert(report.items_of(c) == pre.items_of(c));
                        }
                    }
                }
            }
        }
        s = s + 1;
    }
    report
}

/// The whole scan: the filesystem pass plus, when the container-engine
/// category was requested outside current-directory-only mode and its tool
/// answered the size query, at most one aggregate container-engine item.
/// An unavailable tool (`docker_df` of `None`) is never an error: the scan
/// completes with that category simply absent from the report.
pub fn scan_categories(
    categories: &Vec<Category>,
    roots: &Vec<String>,
    current: bool,
    docker_df: &Option<Vec<String>>,
    matcher: &ExcludeMatcher,
    home: &Option<String>,
    cwd: &str,
) -> (report: ScanReport)
    ensures
        report.wf(),
        forall|c: Category| #[trigger] report.present(c) ==> categories@.contains(c),
        forall|c: Category| #[trigger] report.present(c) ==> report.items_of(c).len() > 0,
        current ==> !report.present(Category::Brew),
        docker_df is None ==> !report.present(Category::Docker),
        current ==> !report.present(Category::Docker),
        // The container-engine merge is a function of the arguments alone:
        // requested outside current-directory mode with size-query output at
        // hand, the category holds exactly the fully-specified aggregate
        // item, and nothing when nothing is reclaimable.
        categories@.contains(Category::Docker) && !current ==> (docker_df matches Some(lines)
            ==> if crate::docker::df_total_spec(lines@) == 0 {
            !report.present(Category::Docker)
        } else {
            &&& report.present(Category::Docker)
            &&& report.items_of(Category::Docker).len() == 1
            &&& report.items_of(Category::Docker)[0].category == Category::Docker
            &&& report.items_of(Category::Docker)[0].path@ == "docker:prune"@
            &&& report.items_of(Category::Docker)[0].size == Some(
                crate::docker::df_total_spec(lines@),
            )
            &&& report.items_of(Category::Docker)[0].kind == ItemKind::Directory
        }),
        forall|c: Category, i: int|
            c != Category::Docker && 0 <= i < report.items_of(c).len() ==> !matcher.excludes(
                resolve_path_spec((#[trigger] report.items_of(c)[i]).path@, cwd@),
            ),
{
    let mut report = scan_filesystem(categories, roots, current, matcher, home, cwd);
    if crate::model::contains_category(categories, Category::Docker) && !current {
        match docker_df {
            Some(lines) => {
                let docker_items = crate::docker::docker_scan_items(true, lines);
                if docker_items.len() > 0 {
                    let ghost pre = report;
                    report.add_items(Category::Docker, docker_items);
                    proof {
                        assert(!pre.present(Category::Docker));
                        assert(pre.items_of(Category::Docker) =~= Seq::<ScanItem>::empty());
                        assert(report.items_of(Category::Docker) =~= pre.items_of(
                            Category::Docker,
                        ) + docker_items@);
                        assert(report.items_of(Category::Docker) =~= docker_items@);
                        assert forall|c: Category| #[trigger] report.present(c) implies
                            report.items_of(c).len() > 0 by {
                            if c != Category::Docker {
                                assert(report.slot(c) == pre.slot(c));
                                assert(report.present(c) == pre.present(c));
                                assert(report.items_of(c) == pre.items_of(c));
                                assert(pre.present(c) ==> pre.items_of(c).len() > 0);
                            }
                        }
                        assert forall|c: Category| #[trigger] report.present(c) implies
                            categories@.contains(c) by {
                            if c != Category::Docker {
                                assert(report.slot(c) == pre.slot(c));
                                assert(report.present(c) == pre.present(c));
                                assert(pre.present(c) ==> categories@.contains(c));
                            }
                        }
                        assert forall|c: Category, i: int|
                            c != Category::Docker && 0 <= i < report.items_of(c).len() implies
                            !matcher.excludes(
                            resolve_path_spec((#[trigger] report.items_of(c)[i]).path@, cwd@),
                        ) by {
                            assert(report.slot(c) == pre.slot(c));
                            assert(report.items_of(c) == pre.items_of(c));
                        }
                        assert(!report.present(Category::Brew) == !pre.present(Category::Brew));
                    }
                }
            },
            None => {},
        }
    }
    report
}

} // verus!
