use assert_fs::fixture::FileWriteStr;
use assert_fs::fixture::PathChild;
use assert_fs::fixture::PathCreateDir;
use assert_fs::TempDir;

use pure::delete::dir_removal_fatal;
use pure::delete::file_removal_fatal;
use pure::delete::judge_removal;
use pure::delete::plan_item_removal;
use pure::delete::plan_subtree_removal;
use pure::delete::sort_dirs_deepest_first;
use pure::delete::RemoveOutcome;
use pure::exclude::build_matcher;
use pure::exclude::ExcludeMatcher;
use pure::model::Category;
use pure::model::ScanItem;

fn path_string(p: &std::path::Path) -> String {
    p.to_str().expect("utf-8 path").to_string()
}

#[test]
fn deepest_first_plan_for_nested_tree() {
    let temp = TempDir::new().unwrap();
    let a = temp.child("a");
    let c = a.child("b/c");
    c.create_dir_all().unwrap();
    c.child("file").write_str("x").unwrap();

    let plan = plan_subtree_removal(&path_string(a.path()), &ExcludeMatcher::empty(), "/");

    assert_eq!(plan.files.len(), 1);
    assert!(plan.files[0].ends_with("a/b/c/file"));
    assert_eq!(plan.dirs.len(), 3);
    assert!(plan.dirs[0].ends_with("a/b/c"));
    assert!(plan.dirs[1].ends_with("a/b"));
    assert!(plan.dirs[2].ends_with("a"));

    // With every step answered by a successful removal the attempt is a
    // success: files first, then directories bottom-up, no non-empty error.
    let file_outcomes = vec![RemoveOutcome::Removed];
    let dir_outcomes = vec![RemoveOutcome::Removed, RemoveOutcome::Removed, RemoveOutcome::Removed];
    assert!(judge_removal(&file_outcomes, &dir_outcomes));
}

#[test]
fn sort_orders_longest_paths_first() {
    let dirs = vec!["/a".to_string(), "/a/b/c".to_string(), "/a/b".to_string()];
    let sorted = sort_dirs_deepest_first(dirs);
    assert_eq!(sorted, vec!["/a/b/c".to_string(), "/a/b".to_string(), "/a".to_string()]);
}

#[test]
fn delete_plan_skips_excluded_item_entirely() {
    let temp = TempDir::new().unwrap();
    let skip_dir = temp.child("skip");
    skip_dir.create_dir_all().unwrap();
    skip_dir.child("data.txt").write_str("cache").unwrap();
    let remove_dir = temp.child("remove-me");
    remove_dir.create_dir_all().unwrap();
    remove_dir.child("data.txt").write_str("cache").unwrap();

    let matcher = build_matcher(&vec!["**/skip/**".to_string()], &None).expect("valid pattern");

    let skip_item = ScanItem::pending_directory(Category::Nodejs, path_string(skip_dir.path()));
    let keep_plan = plan_item_removal(&skip_item, &matcher, "/");
    // The directory itself does not match `**/skip/**`, but everything in it
    // does: nothing inside is ever planned for removal.
    assert!(keep_plan.files.is_empty());

    let remove_item =
        ScanItem::pending_directory(Category::Nodejs, path_string(remove_dir.path()));
    let remove_plan = plan_item_removal(&remove_item, &matcher, "/");
    assert_eq!(remove_plan.files.len(), 1);
    assert!(remove_plan.files[0].ends_with("remove-me/data.txt"));
    assert_eq!(remove_plan.dirs.len(), 1);
    assert!(remove_plan.dirs[0].ends_with("remove-me"));
}

#[test]
fn plan_never_descends_into_excluded_directories() {
    let temp = TempDir::new().unwrap();
    let tree = temp.child("cache");
    let kept = tree.child("skipme/inner");
    kept.create_dir_all().unwrap();
    kept.child("file.txt").write_str("keep").unwrap();
    tree.child("other.txt").write_str("remove").unwrap();

    let matcher = build_matcher(&vec!["**/skipme".to_string()], &None).expect("valid pattern");
    let plan = plan_subtree_removal(&path_string(tree.path()), &matcher, "/");

    // The excluded directory is pruned whole: nothing beneath it is planned.
    assert!(plan.files.iter().all(|p| !p.contains("skipme")));
    assert!(plan.dirs.iter().all(|p| !p.contains("skipme")));
    assert_eq!(plan.files.len(), 1);
    assert!(plan.files[0].ends_with("cache/other.txt"));
}

#[test]
fn file_item_plans_one_file_removal() {
    let item = ScanItem::pending_file(Category::Brew, "/tmp/cache.log".to_string());
    let plan = plan_item_removal(&item, &ExcludeMatcher::empty(), "/");
    assert_eq!(plan.files, vec!["/tmp/cache.log".to_string()]);
    assert!(plan.dirs.is_empty());
}

#[test]
fn missing_paths_are_tolerated_deletion_is_idempotent() {
    // Re-deleting an already-deleted set: every answer is "not found" and
    // the attempt still succeeds with no change to report.
    let file_outcomes = vec![RemoveOutcome::NotFound, RemoveOutcome::NotFound];
    let dir_outcomes = vec![RemoveOutcome::NotFound];
    assert!(judge_removal(&file_outcomes, &dir_outcomes));

    // A plan for a path that no longer exists is empty, so a second run has
    // nothing to do at all.
    let plan = plan_subtree_removal("/no/such/path/anywhere", &ExcludeMatcher::empty(), "/");
    assert!(plan.files.is_empty());
    assert!(judge_removal(&plan.files.iter().map(|_| RemoveOutcome::NotFound).collect(), &vec![]));
}

#[test]
fn nonempty_directory_outcome_is_tolerated() {
    assert!(!dir_removal_fatal(RemoveOutcome::NotEmpty));
    assert!(!dir_removal_fatal(RemoveOutcome::NotFound));
    assert!(!dir_removal_fatal(RemoveOutcome::Removed));
    assert!(dir_removal_fatal(RemoveOutcome::OtherError));

    let dir_outcomes = vec![RemoveOutcome::Removed, RemoveOutcome::NotEmpty];
    assert!(judge_removal(&vec![], &dir_outcomes));
}

#[test]
fn real_failures_are_fatal() {
    assert!(file_removal_fatal(RemoveOutcome::OtherError));
    assert!(file_removal_fatal(RemoveOutcome::NotEmpty));
    assert!(!file_removal_fatal(RemoveOutcome::Removed));
    assert!(!file_removal_fatal(RemoveOutcome::NotFound));

    assert!(!judge_removal(&vec![RemoveOutcome::OtherError], &vec![]));
    assert!(!judge_removal(&vec![], &vec![RemoveOutcome::OtherError]));
}
