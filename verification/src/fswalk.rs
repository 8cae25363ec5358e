//! Filesystem traversal with exclusion pruning.
//!
//! Directory listing and stat calls go through trusted wrappers around
//! `walkdir`; the traversal itself — the worklist, the pruning decisions,
//! and the collection of results — is verified code. Every path these
//! walkers hand back is guaranteed not to be excluded.

use vstd::prelude::*;
use vstd::string::StrSliceExecFns;

use crate::exclude::is_excluded;
use crate::exclude::resolve_path_spec;
use crate::exclude::ExcludeMatcher;
use crate::model::sat_add;
use crate::model::ItemKind;
use crate::model::ScanItem;
use vstd::pervasive::VecAdditionalExecFns;
use crate::strutil::join_path;
use crate::strutil::join_spec;

verus! {

/// What a directory entry is on disk.
#[derive(Debug, Clone, Copy, PartialEq, Eq, Structural)]
pub enum EntryKind {
    File,
    Directory,
    /// Symlinks and other special files: never descended, never counted.
    Other,
}

/// One child entry of a listed directory.
#[derive(Debug, Clone)]
pub struct RawEntry {
    pub name: String,
    pub kind: EntryKind,
    pub size: u64,
}

/// A file path together with its measured byte size.
#[derive(Debug, Clone)]
pub struct SizedPath {
    pub path: String,
    pub size: u64,
}

/// Relies on walkdir::WalkDir (min_depth 1, max_depth 1): lists the
/// immediate children of a directory. Unreadable entries are skipped; a
/// missing or unreadable directory yields an empty list. Each name is the
/// entry's own (final) name: non-empty and free of the path separator.
#[verifier::external_body]
pub(crate) fn read_dir_entries(path: &str) -> (r: Vec<RawEntry>)
    ensures
        forall|i: int|
            0 <= i < r@.len() ==> (#[trigger] r@[i]).name@.len() > 0 && (forall|j: int|
                0 <= j < r@[i].name@.len() ==> r@[i].name@[j] != '/'),
{
    let mut out = Vec::new();
    for entry in walkdir::WalkDir::new(path).min_depth(1).max_depth(1) {
        if let Ok(e) = entry {
            let kind = if e.file_type().is_file() {
                EntryKind::File
            } else if e.file_type().is_dir() {
                EntryKind::Directory
            } else {
                EntryKind::Other
            };
            let size = e.metadata().map(|m| m.len()).unwrap_or(0);
            out.push(RawEntry { name: e.file_name().to_string_lossy().into_owned(), kind, size });
        }
    }
    out
}

/// Relies on walkdir::WalkDir (max_depth 0): stats a single path without
/// descending. `None` when the path does not exist or cannot be read.
#[verifier::external_body]
pub(crate) fn stat_path(path: &str) -> (r: Option<RawEntry>) {
    match walkdir::WalkDir::new(path).max_depth(0).into_iter().next() {
        Some(Ok(e)) => {
            let kind = if e.file_type().is_file() {
                EntryKind::File
            } else if e.file_type().is_dir() {
                EntryKind::Directory
            } else {
                EntryKind::Other
            };
            let size = e.metadata().map(|m| m.len()).unwrap_or(0);
            Some(RawEntry { name: e.file_name().to_string_lossy().into_owned(), kind, size })
        },
        _ => None,
    }
}

/// Whether a path exists on disk (readable by a stat).
pub(crate) fn path_exists(path: &str) -> bool {
    stat_path(path).is_some()
}

/// The most entries one walk will process; a traversal budget, so that every
/// walk provably terminates. Large enough for any real tree.
pub const WALK_FUEL: u64 = 0xFFFF_FFFF;

/// Within one walked subtree, every directory on the way down to `q` is
/// unexcluded: `q` does not sit beneath an excluded directory. The
/// directories on the way are the prefixes of `q` that end at a separator
/// at or after the end of the subtree's root.
pub open spec fn ancestors_unexcluded(
    q: Seq<char>,
    root: Seq<char>,
    matcher: ExcludeMatcher,
    cwd: Seq<char>,
) -> bool {
    forall|k: int|
        root.len() <= k < q.len() && q[k] == '/' ==> !matcher.excludes(
            resolve_path_spec(#[trigger] q.take(k), cwd),
        )
}

/// Joining a separator-free name onto an unexcluded directory whose own
/// ancestors are unexcluded keeps every ancestor unexcluded.
pub proof fn lemma_ancestors_join(
    dir: Seq<char>,
    name: Seq<char>,
    root: Seq<char>,
    matcher: ExcludeMatcher,
    cwd: Seq<char>,
)
    requires
        ancestors_unexcluded(dir, root, matcher, cwd),
        !matcher.excludes(resolve_path_spec(dir, cwd)),
        root.len() <= dir.len(),
        forall|j: int| 0 <= j < name.len() ==> name[j] != '/',
    ensures
        ancestors_unexcluded(join_spec(dir, name), root, matcher, cwd),
{
    reveal_strlit("/");
    let q = join_spec(dir, name);
    assert(q.len() == dir.len() + 1 + name.len());
    assert forall|k: int|
        root.len() <= k < q.len() && q[k] == '/' implies !matcher.excludes(
        resolve_path_spec(#[trigger] q.take(k), cwd),
    ) by {
        if k < dir.len() {
            assert(q[k] == dir[k]);
            assert(q.take(k) =~= dir.take(k));
        } else if k == dir.len() {
            assert(q.take(k) =~= dir);
        } else {
            assert(q[k] == name[k - dir.len() - 1]);
        }
    }
}

/// Everything a full-enumeration walk found: the plain files with their
/// sizes, and every directory including the root itself.
pub struct WalkListing {
    pub files: Vec<SizedPath>,
    pub dirs: Vec<String>,
}

impl WalkListing {
    /// Nothing the walk returns is excluded, once resolved against `cwd`.
    pub open spec fn respects(self, matcher: ExcludeMatcher, cwd: Seq<char>) -> bool {
        (forall|i: int|
            0 <= i < self.files@.len() ==> !matcher.excludes(
                resolve_path_spec((#[trigger] self.files@[i]).path@, cwd),
            )) && (forall|i: int|
            0 <= i < self.dirs@.len() ==> !matcher.excludes(
                resolve_path_spec((#[trigger] self.dirs@[i])@, cwd),
            ))
    }

    /// Nothing the walk returns sits beneath an excluded directory of the
    /// walked subtree.
    pub open spec fn confined(self, root: Seq<char>, matcher: ExcludeMatcher, cwd: Seq<char>) -> bool {
        (forall|i: int|
            0 <= i < self.files@.len() ==> ancestors_unexcluded(
                (#[trigger] self.files@[i]).path@,
                root,
                matcher,
                cwd,
            )) && (forall|i: int|
            0 <= i < self.dirs@.len() ==> ancestors_unexcluded(
                (#[trigger] self.dirs@[i])@,
                root,
                matcher,
                cwd,
            ))
    }
}

/// Full-enumeration walk of a subtree with exclusion pruning: an excluded
/// directory is neither reported nor descended into, so nothing below it is
/// ever seen. An excluded root yields an empty listing.
pub fn walk_full(root: &str, matcher: &ExcludeMatcher, cwd: &str) -> (r: WalkListing)
    ensures
        r.respects(*matcher, cwd@),
        r.confined(root@, *matcher, cwd@),
        matcher.excludes(resolve_path_spec(root@, cwd@)) ==> r.files@.len() == 0
            && r.dirs@.len() == 0,
        r.dirs@.len() > 0 ==> r.dirs@[0]@ == root@,
{
    let mut files: Vec<SizedPath> = Vec::new();
    let mut dirs: Vec<String> = Vec::new();
    if is_excluded(root, matcher, cwd) {
        return WalkListing { files, dirs };
    }
    let mut stack: Vec<String> = Vec::new();
    match stat_path(root) {
        Some(e) => {
            match e.kind {
                EntryKind::File => {
                    files.push(SizedPath { path: root.to_owned(), size: e.size });
                },
                EntryKind::Directory => {
                    dirs.push(root.to_owned());
                    stack.push(root.to_owned());
                },
                EntryKind::Other => {},
            }
        },
        None => {},
    }
    let mut fuel: u64 = WALK_FUEL;
    while stack.len() > 0 && fuel > 0
        invariant
            !matcher.excludes(resolve_path_spec(root@, cwd@)),
            dirs@.len() > 0 ==> dirs@[0]@ == root@,
            stack@.len() > 0 ==> dirs@.len() > 0,
            forall|i: int|
                0 <= i < stack@.len() ==> {
                    let d = (#[trigger] stack@[i])@;
                    &&& !matcher.excludes(resolve_path_spec(d, cwd@))
                    &&& ancestors_unexcluded(d, root@, *matcher, cwd@)
                    &&& root@.len() <= d.len()
                },
            forall|i: int|
                0 <= i < files@.len() ==> !matcher.excludes(
                    resolve_path_spec((#[trigger] files@[i]).path@, cwd@),
                ) && ancestors_unexcluded((#[trigger] files@[i]).path@, root@, *matcher, cwd@),
            forall|i: int|
                0 <= i < dirs@.len() ==> !matcher.excludes(
                    resolve_path_spec((#[trigger] dirs@[i])@, cwd@),
                ) && ancestors_unexcluded((#[trigger] dirs@[i])@, root@, *matcher, cwd@),
        decreases fuel,
    {
        fuel = fuel - 1;
        let dir = stack.pop().unwrap();
        let entries = read_dir_entries(dir.as_str());
        let mut j: usize = 0;
        while j < entries.len()
            invariant
                dirs@.len() > 0,
                dirs@[0]@ == root@,
                !matcher.excludes(resolve_path_spec(dir@, cwd@)),
                ancestors_unexcluded(dir@, root@, *matcher, cwd@),
                root@.len() <= dir@.len(),
                forall|i: int|
                    0 <= i < entries@.len() ==> (#[trigger] entries@[i]).name@.len() > 0 && (
                    forall|k: int| 0 <= k < entries@[i].name@.len() ==> entries@[i].name@[k] != '/'),
                forall|i: int|
                    0 <= i < stack@.len() ==> {
                        let d = (#[trigger] stack@[i])@;
                        &&& !matcher.excludes(resolve_path_spec(d, cwd@))
                        &&& ancestors_unexcluded(d, root@, *matcher, cwd@)
                        &&& root@.len() <= d.len()
                    },
                forall|i: int|
                    0 <= i < files@.len() ==> !matcher.excludes(
                        resolve_path_spec((#[trigger] files@[i]).path@, cwd@),
                    ) && ancestors_unexcluded((#[trigger] files@[i]).path@, root@, *matcher, cwd@),
                forall|i: int|
                    0 <= i < dirs@.len() ==> !matcher.excludes(
                        resolve_path_spec((#[trigger] dirs@[i])@, cwd@),
                    ) && ancestors_unexcluded((#[trigger] dirs@[i])@, root@, *matcher, cwd@),
            decreases entries@.len() - j,
        {
            let child = join_path(dir.as_str(), entries[j].name.as_str());
            proof {
                lemma_ancestors_join(dir@, entries@[j as int].name@, root@, *matcher, cwd@);
            }
            if !is_excluded(child.as_str(), matcher, cwd) {
                match entries[j].kind {
                    EntryKind::File => {
                        files.push(SizedPath { path: child, size: entries[j].size });
                    },
                    EntryKind::Directory => {
                        dirs.push(child.clone());
                        stack.push(child);
                    },
                    EntryKind::Other => {},
                }
            }
            j = j + 1;
        }
    }
    WalkListing { files, dirs }
}

/// Saturating total of the sizes of the files that are not excluded;
/// an excluded file contributes nothing.
pub open spec fn sum_unexcluded(
    files: Seq<SizedPath>,
    matcher: ExcludeMatcher,
    cwd: Seq<char>,
) -> u64
    decreases files.len(),
{
    if files.len() == 0 {
        0u64
    } else {
        let rest = sum_unexcluded(files.drop_last(), matcher, cwd);
        if matcher.excludes(resolve_path_spec(files.last().path@, cwd)) {
            rest
        } else {
            sat_add(rest, files.last().size)
        }
    }
}

/// Sums the sizes of the unexcluded files in a listing, saturating at
/// `u64::MAX`. Exclusion is re-checked here on every file, so excluded
/// content contributes nothing to a measurement no matter how the listing
/// was produced.
pub fn measure_files(files: &Vec<SizedPath>, matcher: &ExcludeMatcher, cwd: &str) -> (r: u64)
    ensures
        r == sum_unexcluded(files@, *matcher, cwd@),
{
    let mut total: u64 = 0;
    let mut i: usize = 0;
    while i < files.len()
        invariant
            i <= files@.len(),
            total == sum_unexcluded(files@.take(i as int), *matcher, cwd@),
        decreases files@.len() - i,
    {
        proof {
            assert(files@.take(i + 1).drop_last() =~= files@.take(i as int));
            assert(files@.take(i + 1).last() == files@[i as int]);
        }
        if !is_excluded(files[i].path.as_str(), matcher, cwd) {
            let sz = files[i].size;
            total = if total <= u64::MAX - sz {
                total + sz
            } else {
                u64::MAX
            };
        }
        i = i + 1;
    }
    proof {
        assert(files@.take(files@.len() as int) =~= files@);
    }
    total
}

/// A tree whose entire content is excluded measures as exactly zero bytes:
/// if every file in a listing is excluded, the measured total is 0.
pub proof fn lemma_excluded_content_measures_zero(
    files: Seq<SizedPath>,
    matcher: ExcludeMatcher,
    cwd: Seq<char>,
)
    requires
        forall|i: int|
            0 <= i < files.len() ==> matcher.excludes(
                resolve_path_spec((#[trigger] files[i]).path@, cwd),
            ),
    ensures
        sum_unexcluded(files, matcher, cwd) == 0,
    decreases files.len(),
{
    if files.len() > 0 {
        lemma_excluded_content_measures_zero(files.drop_last(), matcher, cwd);
    }
}

/// What a measurement is: the pruned, saturating sum of some set of files
/// that are each unexcluded and sit beneath no excluded directory of the
/// measured subtree. Which files those are depends on what is on disk; that
/// excluded content never contributes does not.
pub open spec fn is_pruned_measurement(
    r: u64,
    path: Seq<char>,
    matcher: ExcludeMatcher,
    cwd: Seq<char>,
) -> bool {
    exists|files: Seq<SizedPath>|
        (forall|i: int|
            0 <= i < files.len() ==> !matcher.excludes(
                resolve_path_spec((#[trigger] files[i]).path@, cwd),
            ) && ancestors_unexcluded((#[trigger] files[i]).path@, path, matcher, cwd)) && r
            == sum_unexcluded(files, matcher, cwd)
}

/// The size of one path: an excluded path measures zero; an unexcluded
/// file's size is its metadata length; a directory's size is the pruned,
/// saturating sum of the files strictly beneath it, excluded content
/// contributing nothing.
pub fn path_size(path: &str, matcher: &ExcludeMatcher, cwd: &str) -> (r: u64)
    ensures
        matcher.excludes(resolve_path_spec(path@, cwd@)) ==> r == 0,
        is_pruned_measurement(r, path@, *matcher, cwd@),
{
    if is_excluded(path, matcher, cwd) {
        proof {
            let ghost none = Seq::<SizedPath>::empty();
            assert(sum_unexcluded(none, *matcher, cwd@) == 0);
        }
        return 0;
    }
    match stat_path(path) {
        Some(e) => {
            match e.kind {
                EntryKind::File => {
                    let mut one: Vec<SizedPath> = Vec::new();
                    one.push(SizedPath { path: path.to_owned(), size: e.size });
                    let r = measure_files(&one, matcher, cwd);
                    proof {
                        assert(forall|i: int|
                            0 <= i < one@.len() ==> !matcher.excludes(
                                resolve_path_spec((#[trigger] one@[i]).path@, cwd@),
                            ) && ancestors_unexcluded(
                                (#[trigger] one@[i]).path@,
                                path@,
                                *matcher,
                                cwd@,
                            ));
                    }
                    r
                },
                _ => {
                    let listing = walk_full(path, matcher, cwd);
                    measure_files(&listing.files, matcher, cwd)
                },
            }
        },
        None => {
            let listing = walk_full(path, matcher, cwd);
            measure_files(&listing.files, matcher, cwd)
        },
    }
}

/// The size pass: fills in, in place, the size of every item that is still
/// unmeasured, with the pruned measurement of its path: zero for an
/// excluded path, a file's metadata length, a directory's pruned saturating
/// sum. Already-measured items are untouched, and category, path and kind
/// never change.
pub fn compute_sizes(items: &mut Vec<ScanItem>, matcher: &ExcludeMatcher, cwd: &str)
    ensures
        final(items)@.len() == old(items)@.len(),
        forall|i: int|
            0 <= i < old(items)@.len() ==> {
                let b = #[trigger] old(items)@[i];
                let a = final(items)@[i];
                &&& a.category == b.category
                &&& a.path == b.path
                &&& a.kind == b.kind
                &&& a.size is Some
                &&& (b.size is Some ==> a == b)
                &&& (b.size is None ==> (matcher.excludes(resolve_path_spec(b.path@, cwd@))
                    ==> a.size == Some(0u64)) && is_pruned_measurement(
                    a.size.unwrap(),
                    b.path@,
                    *matcher,
                    cwd@,
                ))
            },
{
    let mut i: usize = 0;
    while i < items.len()
        invariant
            i <= items@.len(),
            items@.len() == old(items)@.len(),
            forall|k: int| i <= k < items@.len() ==> items@[k] == old(items)@[k],
            forall|k: int|
                0 <= k < i ==> {
                    let b = #[trigger] old(items)@[k];
                    let a = items@[k];
                    &&& a.category == b.category
                    &&& a.path == b.path
                    &&& a.kind == b.kind
                    &&& a.size is Some
                    &&& (b.size is Some ==> a == b)
                    &&& (b.size is None ==> (matcher.excludes(resolve_path_spec(b.path@, cwd@))
                        ==> a.size == Some(0u64)) && is_pruned_measurement(
                        a.size.unwrap(),
                        b.path@,
                        *matcher,
                        cwd@,
                    ))
                },
        decreases items@.len() - i,
    {
        let measured = match items[i].size {
            Some(_) => true,
            None => false,
        };
        if !measured {
            let sz = path_size(items[i].path.as_str(), matcher, cwd);
            let cat = items[i].category;
            let kind = items[i].kind;
            let path = items[i].path.clone();
            items.set(i, ScanItem { category: cat, path, size: Some(sz), kind });
        }
        i = i + 1;
    }
}

} // verus!
