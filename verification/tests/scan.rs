use assert_fs::fixture::FileWriteStr;
use assert_fs::fixture::PathChild;
use assert_fs::fixture::PathCreateDir;
use assert_fs::TempDir;

use pure::exclude::build_matcher;
use pure::exclude::ExcludeMatcher;
use pure::fswalk::compute_sizes;
use pure::fswalk::path_size;
use pure::model::Category;
use pure::model::ItemKind;
use pure::model::ScanItem;
use pure::scan::find_target_dirs;
use pure::scan::nodejs_targets;
use pure::scan::scan_categories;
use pure::scan::xcode_scan;

fn path_string(p: &std::path::Path) -> String {
    p.to_str().expect("utf-8 path").to_string()
}

#[test]
fn scan_detects_local_derived_data() {
    let temp = TempDir::new().unwrap();
    let project_root = temp.child("workspace");
    project_root.create_dir_all().unwrap();
    let derived = project_root.child("DerivedData/cache");
    derived.create_dir_all().unwrap();
    derived.child("foo.txt").write_str("cache").unwrap();

    let roots = vec![path_string(project_root.path())];
    let items = xcode_scan(&roots, false, &ExcludeMatcher::empty(), &None, "/");

    assert!(
        items.iter().any(|item| item.path.ends_with("DerivedData")),
        "expected DerivedData directory to be reported"
    );
}

#[test]
fn scan_detects_swiftpm_artifacts_only_with_package_swift() {
    let temp = TempDir::new().unwrap();
    let roots_dir = temp.child("workspace");
    roots_dir.create_dir_all().unwrap();

    let pkg = roots_dir.child("AppWithPackage");
    pkg.create_dir_all().unwrap();
    pkg.child("Package.swift").write_str("// swift package").unwrap();
    pkg.child(".build/output.o").write_str("bin").unwrap();
    pkg.child(".swiftpm/config").write_str("cfg").unwrap();
    pkg.child("Package.resolved").write_str("deps").unwrap();

    let no_pkg = roots_dir.child("AppWithoutPackage");
    no_pkg.create_dir_all().unwrap();
    no_pkg.child(".build/output.o").write_str("bin").unwrap();

    let roots = vec![path_string(roots_dir.path())];
    let items = xcode_scan(&roots, false, &ExcludeMatcher::empty(), &None, "/");

    assert!(
        items.iter().any(|item| item.path.contains("AppWithPackage/.build")),
        ".build directory should be reported when Package.swift exists"
    );
    assert!(
        !items.iter().any(|item| item.path.contains("AppWithoutPackage/.build")),
        "Projects without Package.swift should be ignored"
    );
}

#[test]
fn compute_sizes_parallel_assigns_sizes() {
    let temp = TempDir::new().unwrap();
    let dir = temp.child("node_modules");
    dir.child("lib").create_dir_all().unwrap();
    dir.child("lib/index.js").write_str("console.log('cache');").unwrap();
    let file = temp.child("cache.log");
    file.write_str("hello").unwrap();

    let mut items = vec![
        ScanItem::pending_directory(Category::Nodejs, path_string(dir.path())),
        ScanItem::pending_file(Category::Nodejs, path_string(file.path())),
    ];

    compute_sizes(&mut items, &ExcludeMatcher::empty(), "/");

    assert!(
        items.iter().all(|item| item.size.unwrap_or(0) > 0),
        "expected non-zero sizes after measurement"
    );
}

#[test]
fn scenario_node_modules_scan_reports_size() {
    let temp = TempDir::new().unwrap();
    let cache = temp.child("project/node_modules");
    cache.create_dir_all().unwrap();
    cache.child("index.js").write_str("12345").unwrap();

    let roots = vec![path_string(temp.path())];
    let report = scan_categories(
        &vec![Category::Nodejs],
        &roots,
        false,
        &None,
        &ExcludeMatcher::empty(),
        &None,
        "/",
    );

    let rep = report.report_for(Category::Nodejs).expect("nodejs category reported");
    assert_eq!(rep.items.len(), 1);
    assert!(rep.items[0].path.ends_with("project/node_modules"));
    assert_eq!(rep.items[0].kind, ItemKind::Directory);
    assert_eq!(rep.items[0].size, Some(5));
    assert_eq!(report.total_size(), 5);

    // A confirmed deletion would remove the whole subtree: the plan names
    // the one file inside and the directory itself, bottom-up.
    let plan = pure::delete::plan_item_removal(&rep.items[0], &ExcludeMatcher::empty(), "/");
    assert_eq!(plan.files.len(), 1);
    assert!(plan.files[0].ends_with("node_modules/index.js"));
    assert_eq!(plan.dirs.len(), 1);
    assert!(plan.dirs[0].ends_with("project/node_modules"));
}

#[test]
fn scenario_scan_after_cache_gone_reports_nothing() {
    let temp = TempDir::new().unwrap();
    let project = temp.child("project");
    project.create_dir_all().unwrap();

    let roots = vec![path_string(temp.path())];
    let report = scan_categories(
        &vec![Category::Nodejs],
        &roots,
        false,
        &None,
        &ExcludeMatcher::empty(),
        &None,
        "/",
    );

    assert!(report.report_for(Category::Nodejs).is_none());
    assert_eq!(report.total_size(), 0);
}

#[test]
fn scenario_excluded_node_modules_scans_as_zero() {
    let temp = TempDir::new().unwrap();
    let cache = temp.child("project/node_modules");
    cache.create_dir_all().unwrap();
    cache.child("index.js").write_str("12345").unwrap();

    // The home directory is the temp root, so `~/project/node_modules`
    // expands to the cache path.
    let home = Some(path_string(temp.path()));
    let matcher =
        build_matcher(&vec!["~/project/node_modules".to_string()], &home).expect("valid pattern");

    let roots = vec![path_string(temp.path())];
    let report =
        scan_categories(&vec![Category::Nodejs], &roots, false, &None, &matcher, &home, "/");

    assert!(report.report_for(Category::Nodejs).is_none());
    assert_eq!(report.total_size(), 0);

    // Deletion of the excluded path is skipped entirely: the plan is empty
    // and the directory stays on disk.
    let item =
        ScanItem::pending_directory(Category::Nodejs, path_string(cache.path()));
    let plan = pure::delete::plan_item_removal(&item, &matcher, "/");
    assert!(plan.files.is_empty());
    assert!(plan.dirs.is_empty());
    assert!(cache.path().exists());
}

#[test]
fn scenario_docker_unavailable_scan_completes_without_docker() {
    let temp = TempDir::new().unwrap();
    let cache = temp.child("project/node_modules");
    cache.create_dir_all().unwrap();
    cache.child("index.js").write_str("cache").unwrap();

    let roots = vec![path_string(temp.path())];
    let all = pure::model::Category::all();
    let report = scan_categories(&all, &roots, false, &None, &ExcludeMatcher::empty(), &None, "/");

    assert!(report.report_for(Category::Docker).is_none());
    assert!(report.report_for(Category::Nodejs).is_some());
}

#[test]
fn nested_targets_report_only_the_outermost() {
    let temp = TempDir::new().unwrap();
    let outer = temp.child("project/node_modules");
    let inner = outer.child("dep/node_modules");
    inner.create_dir_all().unwrap();
    inner.child("index.js").write_str("cache").unwrap();

    let items = find_target_dirs(
        &path_string(temp.path()),
        &nodejs_targets(),
        Category::Nodejs,
        &ExcludeMatcher::empty(),
        "/",
    );

    // The matched subtree is one opaque unit: the nested cache inside it is
    // not reported separately.
    assert_eq!(items.len(), 1);
    assert!(items[0].path.ends_with("project/node_modules"));
}

#[test]
fn docker_query_output_merges_into_scan() {
    let temp = TempDir::new().unwrap();
    temp.child("empty").create_dir_all().unwrap();
    let roots = vec![path_string(temp.path())];
    let df = Some(vec!["{\"Reclaimable\":\"1500B\"}".to_string()]);
    let report = scan_categories(
        &pure::model::Category::all(),
        &roots,
        false,
        &df,
        &ExcludeMatcher::empty(),
        &None,
        "/",
    );
    let docker = report.report_for(Category::Docker).expect("docker category merged");
    assert_eq!(docker.items.len(), 1);
    assert_eq!(docker.items[0].size, Some(1500));
    assert_eq!(docker.items[0].path, "docker:prune");
}

#[test]
fn current_mode_never_reports_docker() {
    let temp = TempDir::new().unwrap();
    temp.child("x").create_dir_all().unwrap();
    let roots = vec![path_string(temp.path())];
    // Even with size-query output at hand, current-directory-only mode
    // leaves the container-engine category out.
    let df = Some(vec!["{\"Reclaimable\":\"1500B\"}".to_string()]);
    let report = scan_categories(
        &pure::model::Category::all(),
        &roots,
        true,
        &df,
        &ExcludeMatcher::empty(),
        &None,
        "/",
    );
    assert!(report.report_for(Category::Docker).is_none());
    assert!(report.report_for(Category::Brew).is_none());
}

#[test]
fn excluded_directory_is_never_discovered() {
    let temp = TempDir::new().unwrap();
    let cache = temp.child("project/node_modules");
    cache.create_dir_all().unwrap();
    cache.child("index.js").write_str("cache").unwrap();

    let pattern = format!("{}/project/node_modules", path_string(temp.path()));
    let matcher = build_matcher(&vec![pattern], &None).expect("valid pattern");

    let roots = vec![path_string(temp.path())];
    let items =
        find_target_dirs(&roots[0], &nodejs_targets(), Category::Nodejs, &matcher, "/");
    assert!(items.is_empty());
}

#[test]
fn current_mode_with_no_roots_reports_nothing() {
    // In current-directory-only mode the global cache paths are never
    // probed, so with no roots nothing at all is reported — even when a
    // home directory is known.
    let home = Some("/".to_string());
    let items = xcode_scan(&vec![], true, &ExcludeMatcher::empty(), &home, "/");
    assert!(items.is_empty());
}

#[test]
fn excluded_path_measures_zero() {
    let temp = TempDir::new().unwrap();
    let file = temp.child("big.log");
    file.write_str("0123456789").unwrap();

    let pattern = format!("{}/big.log", path_string(temp.path()));
    let matcher = build_matcher(&vec![pattern], &None).expect("valid pattern");

    assert_eq!(path_size(&path_string(file.path()), &matcher, "/"), 0);
    assert_eq!(path_size(&path_string(file.path()), &ExcludeMatcher::empty(), "/"), 10);
}

#[test]
fn fully_excluded_directory_measures_zero() {
    let temp = TempDir::new().unwrap();
    let data = temp.child("data");
    data.create_dir_all().unwrap();
    data.child("a.bin").write_str("0123456789").unwrap();
    data.child("sub").create_dir_all().unwrap();
    data.child("sub/b.bin").write_str("0123456789").unwrap();

    let pattern = format!("{}/data/**", path_string(temp.path()));
    let matcher = build_matcher(&vec![pattern], &None).expect("valid pattern");

    let measured = path_size(&path_string(data.path()), &matcher, "/");
    assert_eq!(measured, 0);

    let unexcluded = path_size(&path_string(data.path()), &ExcludeMatcher::empty(), "/");
    assert_eq!(unexcluded, 20);
}

#[test]
fn current_mode_skips_brew_scanner() {
    let scanners = pure::scan::get_scanners(true);
    assert_eq!(scanners.len(), 4);
    assert!(scanners.iter().all(|s| s.category() != Category::Brew));
    let scanners = pure::scan::get_scanners(false);
    assert_eq!(scanners.len(), 5);
    assert!(scanners.iter().any(|s| s.category() == Category::Brew));
}

#[test]
fn generic_list_targets_counts_locations() {
    let temp = TempDir::new().unwrap();
    temp.child("a/node_modules").create_dir_all().unwrap();
    temp.child("b/node_modules").create_dir_all().unwrap();
    temp.child("c/.next").create_dir_all().unwrap();

    let roots = vec![path_string(temp.path())];
    let labels = pure::scan::generic_list_targets(
        &roots,
        &nodejs_targets(),
        Category::Nodejs,
        &ExcludeMatcher::empty(),
        "/",
    );

    // Labels come sorted ascending by target name, one per detected name.
    assert_eq!(
        labels,
        vec![
            ".next (1 location found)".to_string(),
            "node_modules (2 locations found)".to_string(),
        ]
    );
}
