//! The safe-deletion engine.
//!
//! Deletion is planned here and judged here; the actual `remove` calls are
//! process I/O and stay with the caller, which reports each outcome back.
//! The plan for a directory subtree is the two-phase order that makes
//! removal safe beside surviving excluded content: every plain file first,
//! then the directories deepest-first, and nothing excluded ever appears in
//! a plan. The tolerance policy makes repeated deletion converge: a missing
//! path is a success, and a directory kept non-empty by excluded content is
//! not an error.

use vstd::prelude::*;
use vstd::seq_lib::group_to_multiset_ensures;
use vstd::string::StrSliceExecFns;

use crate::exclude::is_excluded;
use crate::exclude::resolve_path_spec;
use crate::exclude::ExcludeMatcher;
use crate::fswalk::ancestors_unexcluded;
use crate::fswalk::walk_full;
use crate::model::ItemKind;
use crate::model::ScanItem;

verus! {

/// How the filesystem answered one removal attempt.
#[derive(Debug, Clone, Copy, PartialEq, Eq, Structural)]
pub enum RemoveOutcome {
    /// The path was removed.
    Removed,
    /// The path did not exist; already gone.
    NotFound,
    /// A directory could not be removed because it still has content.
    NotEmpty,
    /// Any other failure: permission denied, device error.
    OtherError,
}

/// Whether a file removal outcome aborts the deletion: only a real failure
/// does; a missing file is already deleted.
pub open spec fn file_fatal_spec(o: RemoveOutcome) -> bool {
    !(o == RemoveOutcome::Removed || o == RemoveOutcome::NotFound)
}

pub fn file_removal_fatal(o: RemoveOutcome) -> (r: bool)
    ensures
        r == file_fatal_spec(o),
{
    match o {
        RemoveOutcome::Removed => false,
        RemoveOutcome::NotFound => false,
        _ => true,
    }
}

/// Whether a directory removal outcome aborts the deletion: a missing
/// directory is already deleted, and one kept non-empty by surviving
/// excluded content is expected and tolerated.
pub open spec fn dir_fatal_spec(o: RemoveOutcome) -> bool {
    o == RemoveOutcome::OtherError
}

pub fn dir_removal_fatal(o: RemoveOutcome) -> (r: bool)
    ensures
        r == dir_fatal_spec(o),
{
    match o {
        RemoveOutcome::OtherError => true,
        _ => false,
    }
}

/// The two-phase removal plan for one item: every file, then every
/// directory, the directories ordered deepest-first.
pub struct RemovalPlan {
    pub files: Vec<String>,
    pub dirs: Vec<String>,
}

impl RemovalPlan {
    /// No planned path is excluded.
    pub open spec fn respects(self, matcher: ExcludeMatcher, cwd: Seq<char>) -> bool {
        (forall|i: int|
            0 <= i < self.files@.len() ==> !matcher.excludes(
                resolve_path_spec((#[trigger] self.files@[i])@, cwd),
            )) && (forall|i: int|
            0 <= i < self.dirs@.len() ==> !matcher.excludes(
                resolve_path_spec((#[trigger] self.dirs@[i])@, cwd),
            ))
    }

    /// The directories come longest path first, so a parent is attempted
    /// only after all of its children.
    pub open spec fn deepest_first(self) -> bool {
        forall|i: int, j: int|
            0 <= i < j < self.dirs@.len() ==> (#[trigger] self.dirs@[i])@.len()
                >= (#[trigger] self.dirs@[j])@.len()
    }

    pub open spec fn is_empty_spec(self) -> bool {
        self.files@.len() == 0 && self.dirs@.len() == 0
    }

    /// No planned path sits beneath an excluded directory of the planned
    /// subtree: pruning stops at the first excluded directory, so nothing
    /// below one is ever passed to a remove call.
    pub open spec fn confined(self, root: Seq<char>, matcher: ExcludeMatcher, cwd: Seq<char>) -> bool {
        (forall|i: int|
            0 <= i < self.files@.len() ==> ancestors_unexcluded(
                (#[trigger] self.files@[i])@,
                root,
                matcher,
                cwd,
            )) && (forall|i: int|
            0 <= i < self.dirs@.len() ==> ancestors_unexcluded(
                (#[trigger] self.dirs@[i])@,
                root,
                matcher,
                cwd,
            ))
    }
}

/// Sorts directory paths longest first (deepest first), keeping exactly the
/// same paths.
pub fn sort_dirs_deepest_first(dirs: Vec<String>) -> (r: Vec<String>)
    ensures
        r@.len() == dirs@.len(),
        r@.to_multiset() == dirs@.to_multiset(),
        forall|i: int, j: int|
            0 <= i < j < r@.len() ==> (#[trigger] r@[i])@.len() >= (#[trigger] r@[j])@.len(),
{
    broadcast use group_to_multiset_ensures;

    let ghost input = dirs@;
    let mut src = dirs;
    let mut out: Vec<String> = Vec::new();
    while src.len() > 0
        invariant
            out@.to_multiset().add(src@.to_multiset()) =~= input.to_multiset(),
            out@.len() + src@.len() == input.len(),
            forall|i: int, j: int|
                0 <= i < j < out@.len() ==> (#[trigger] out@[i])@.len() >= (#[trigger] out@[j])@.len(),
            forall|i: int, j: int|
                0 <= i < out@.len() && 0 <= j < src@.len() ==> (#[trigger] out@[i])@.len()
                    >= (#[trigger] src@[j])@.len(),
        decreases src@.len(),
    {
        let mut m: usize = 0;
        let mut i: usize = 1;
        while i < src.len()
            invariant
                src@.len() > 0,
                m < i,
                i <= src@.len(),
                forall|k: int| 0 <= k < i ==> (#[trigger] src@[k])@.len() <= src@[m as int]@.len(),
            decreases src@.len() - i,
        {
            if src[i].as_str().unicode_len() > src[m].as_str().unicode_len() {
                m = i;
            }
            i = i + 1;
        }
        let ghost pre_src = src@;
        let ghost pre_out = out@;
        let s = src.remove(m);
        out.push(s);
        proof {
            assert(src@ =~= pre_src.remove(m as int));
            assert(out@ =~= pre_out.push(pre_src[m as int]));
            vstd::seq_lib::to_multiset_build(pre_out, pre_src[m as int]);
            vstd::seq_lib::to_multiset_remove(pre_src, m as int);
            vstd::seq_lib::to_multiset_contains(pre_src, pre_src[m as int]);
            assert(out@.to_multiset() =~= pre_out.to_multiset().insert(pre_src[m as int]));
            assert(src@.to_multiset() =~= pre_src.to_multiset().remove(pre_src[m as int]));
            assert(pre_src.contains(pre_src[m as int]));
            assert(pre_src.to_multiset().count(pre_src[m as int]) > 0);
            assert(out@.to_multiset().add(src@.to_multiset()) =~= input.to_multiset()) by {
                broadcast use vstd::multiset::group_multiset_axioms;

            }
            assert forall|a: int, b: int|
                0 <= a < out@.len() && 0 <= b < src@.len() implies (#[trigger] out@[a])@.len()
                >= (#[trigger] src@[b])@.len() by {
                if b < m {
                    assert(src@[b] == pre_src[b]);
                } else {
                    assert(src@[b] == pre_src[b + 1]);
                }
            }
        }
    }
    out
}

/// Plans the removal of one directory subtree: a pruned full-enumeration
/// walk splits the tree into plain files and directories; excluded content
/// is skipped and never appears; the directories are ordered deepest-first.
/// An excluded root yields an empty plan.
pub fn plan_subtree_removal(path: &str, matcher: &ExcludeMatcher, cwd: &str) -> (plan: RemovalPlan)
    ensures
        plan.respects(*matcher, cwd@),
        plan.confined(path@, *matcher, cwd@),
        plan.deepest_first(),
        matcher.excludes(resolve_path_spec(path@, cwd@)) ==> plan.is_empty_spec(),
        plan.dirs@.len() > 0 ==> exists|i: int|
            0 <= i < plan.dirs@.len() && (#[trigger] plan.dirs@[i])@ == path@,
{
    broadcast use group_to_multiset_ensures;

    let listing = walk_full(path, matcher, cwd);
    let mut files: Vec<String> = Vec::new();
    let mut i: usize = 0;
    while i < listing.files.len()
        invariant
            listing.respects(*matcher, cwd@),
            listing.confined(path@, *matcher, cwd@),
            i <= listing.files@.len(),
            files@.len() == i,
            forall|k: int|
                0 <= k < files@.len() ==> !matcher.excludes(
                    resolve_path_spec((#[trigger] files@[k])@, cwd@),
                ) && ancestors_unexcluded((#[trigger] files@[k])@, path@, *matcher, cwd@),
            matcher.excludes(resolve_path_spec(path@, cwd@)) ==> listing.files@.len() == 0
                && listing.dirs@.len() == 0,
        decreases listing.files@.len() - i,
    {
        files.push(listing.files[i].path.clone());
        i = i + 1;
    }
    let ghost unsorted = listing.dirs@;
    let dirs = sort_dirs_deepest_first(listing.dirs);
    proof {
        // The walked subtree's own directory, when listed at all, is listed
        // first; sorting keeps it somewhere in the plan.
        if dirs@.len() > 0 {
            assert(unsorted.len() > 0);
            assert(unsorted[0]@ == path@);
            assert(unsorted.contains(unsorted[0]));
            vstd::seq_lib::to_multiset_contains(unsorted, unsorted[0]);
            vstd::seq_lib::to_multiset_contains(dirs@, unsorted[0]);
            assert(dirs@.contains(unsorted[0]));
            let w = choose|w: int| 0 <= w < dirs@.len() && dirs@[w] == unsorted[0];
            assert(dirs@[w]@ == path@);
        }
        assert forall|k: int|
            0 <= k < dirs@.len() implies !matcher.excludes(
            resolve_path_spec((#[trigger] dirs@[k])@, cwd@),
        ) && ancestors_unexcluded((#[trigger] dirs@[k])@, path@, *matcher, cwd@) by {
            assert(dirs@.to_multiset().contains(dirs@[k]));
            assert(unsorted.to_multiset().contains(dirs@[k]));
            assert(unsorted.contains(dirs@[k]));
            let w = choose|w: int| 0 <= w < unsorted.len() && unsorted[w] == dirs@[k];
            assert(!matcher.excludes(resolve_path_spec(unsorted[w]@, cwd@)));
            assert(ancestors_unexcluded(unsorted[w]@, path@, *matcher, cwd@));
        }
    }
    RemovalPlan { files, dirs }
}

/// Plans the removal of one confirmed item. Exclusion is re-checked here, at
/// deletion time: an excluded item is skipped entirely, whatever a scan said
/// earlier. An unexcluded file item becomes exactly one file removal; an
/// unexcluded directory item becomes its two-phase subtree plan.
pub fn plan_item_removal(item: &ScanItem, matcher: &ExcludeMatcher, cwd: &str) -> (plan:
    RemovalPlan)
    ensures
        plan.respects(*matcher, cwd@),
        plan.deepest_first(),
        plan.confined(item.path@, *matcher, cwd@),
        matcher.excludes(resolve_path_spec(item.path@, cwd@)) ==> plan.is_empty_spec(),
        (!matcher.excludes(resolve_path_spec(item.path@, cwd@)) && item.kind == ItemKind::File)
            ==> plan.files@.len() == 1 && plan.files@[0]@ == item.path@ && plan.dirs@.len() == 0,
        item.kind == ItemKind::Directory && plan.dirs@.len() > 0 ==> exists|i: int|
            0 <= i < plan.dirs@.len() && (#[trigger] plan.dirs@[i])@ == item.path@,
{
    if is_excluded(item.path.as_str(), matcher, cwd) {
        return RemovalPlan { files: Vec::new(), dirs: Vec::new() };
    }
    match item.kind {
        ItemKind::File => {
            let mut files: Vec<String> = Vec::new();
            files.push(item.path.clone());
            RemovalPlan { files, dirs: Vec::new() }
        },
        ItemKind::Directory => plan_subtree_removal(item.path.as_str(), matcher, cwd),
    }
}

/// Judges a finished removal attempt from its outcomes: success exactly when
/// no file outcome and no directory outcome is fatal under the tolerance
/// policy.
pub fn judge_removal(file_outcomes: &Vec<RemoveOutcome>, dir_outcomes: &Vec<RemoveOutcome>) -> (ok:
    bool)
    ensures
        ok == ((forall|i: int|
            0 <= i < file_outcomes@.len() ==> !file_fatal_spec(#[trigger] file_outcomes@[i]))
            && (forall|j: int|
            0 <= j < dir_outcomes@.len() ==> !dir_fatal_spec(#[trigger] dir_outcomes@[j]))),
{
    let mut i: usize = 0;
    while i < file_outcomes.len()
        invariant
            i <= file_outcomes@.len(),
            forall|k: int| 0 <= k < i ==> !file_fatal_spec(#[trigger] file_outcomes@[k]),
        decreases file_outcomes@.len() - i,
    {
        if file_removal_fatal(file_outcomes[i]) {
            return false;
        }
        i = i + 1;
    }
    let mut j: usize = 0;
    while j < dir_outcomes.len()
        invariant
            j <= dir_outcomes@.len(),
            forall|k: int| 0 <= k < file_outcomes@.len() ==> !file_fatal_spec(
                #[trigger] file_outcomes@[k],
            ),
            forall|k: int| 0 <= k < j ==> !dir_fatal_spec(#[trigger] dir_outcomes@[k]),
        decreases dir_outcomes@.len() - j,
    {
        if dir_removal_fatal(dir_outcomes[j]) {
            return false;
        }
        j = j + 1;
    }
    true
}

/// Idempotence of deletion: when everything a plan names is already gone —
/// every removal answers "not found" — the whole attempt succeeds again,
/// with nothing fatal and no change to report.
pub proof fn lemma_removal_idempotent(files: Seq<RemoveOutcome>, dirs: Seq<RemoveOutcome>)
    requires
        forall|i: int| 0 <= i < files.len() ==> #[trigger] files[i] == RemoveOutcome::NotFound,
        forall|j: int| 0 <= j < dirs.len() ==> #[trigger] dirs[j] == RemoveOutcome::NotFound,
    ensures
        forall|i: int| 0 <= i < files.len() ==> !file_fatal_spec(#[trigger] files[i]),
        forall|j: int| 0 <= j < dirs.len() ==> !dir_fatal_spec(#[trigger] dirs[j]),
{
}

/// A directory kept alive by surviving excluded content is not an error:
/// the non-empty-directory outcome is tolerated, as is an already-missing
/// one; only a real failure is fatal.
pub proof fn lemma_surviving_dir_tolerated()
    ensures
        !dir_fatal_spec(RemoveOutcome::NotEmpty),
        !dir_fatal_spec(RemoveOutcome::NotFound),
        !dir_fatal_spec(RemoveOutcome::Removed),
        dir_fatal_spec(RemoveOutcome::OtherError),
{
}

} // verus!
