use pure::model::Category;
use pure::model::CategoryReport;
use pure::model::ItemKind;
use pure::model::ScanItem;
use pure::model::ScanReport;

#[test]
fn category_names_round_trip() {
    for c in Category::all() {
        assert_eq!(Category::from_name(c.as_str()), Some(c));
    }
    assert_eq!(Category::from_name("XCODE"), Some(Category::Xcode));
    assert_eq!(Category::from_name("NodeJS"), Some(Category::Nodejs));
    assert_eq!(Category::from_name("unknown"), None);
    assert_eq!(Category::from_name(""), None);
}

#[test]
fn category_display_names() {
    assert_eq!(Category::Xcode.display_name(), "Xcode");
    assert_eq!(Category::Python.display_name(), "Python");
    assert_eq!(Category::Rust.display_name(), "Rust");
    assert_eq!(Category::Nodejs.display_name(), "NodeJS");
    assert_eq!(Category::Brew.display_name(), "Homebrew");
    assert_eq!(Category::Docker.display_name(), "Docker");
}

#[test]
fn scan_item_constructors_and_is_zero() {
    let d = ScanItem::directory(Category::Rust, "/tmp/target".to_string(), 7);
    assert_eq!(d.kind, ItemKind::Directory);
    assert_eq!(d.size, Some(7));
    assert!(!d.is_zero());

    let f = ScanItem::file(Category::Rust, "/tmp/a".to_string(), 0);
    assert_eq!(f.kind, ItemKind::File);
    assert!(f.is_zero());

    let p = ScanItem::pending_directory(Category::Rust, "/tmp/b".to_string());
    assert_eq!(p.size, None);
    assert!(!p.is_zero());
    assert_eq!(p.path_str(), "/tmp/b");
}

#[test]
fn category_report_totals_saturate() {
    let mut rep = CategoryReport::new(Category::Nodejs);
    assert!(rep.is_empty());
    assert_eq!(rep.total_size(), 0);
    rep.items.push(ScanItem::directory(Category::Nodejs, "/a".to_string(), u64::MAX));
    rep.items.push(ScanItem::directory(Category::Nodejs, "/b".to_string(), 5));
    assert!(!rep.is_empty());
    assert_eq!(rep.total_size(), u64::MAX);
}

#[test]
fn scan_report_add_and_query() {
    let mut report = ScanReport::new();
    assert!(report.is_empty());
    assert_eq!(report.total_size(), 0);
    assert!(report.report_for(Category::Nodejs).is_none());

    report.add_items(
        Category::Nodejs,
        vec![ScanItem::directory(Category::Nodejs, "/r/node_modules".to_string(), 5)],
    );
    report.add_items(
        Category::Xcode,
        vec![ScanItem::directory(Category::Xcode, "/r/DerivedData".to_string(), 10)],
    );

    assert!(!report.is_empty());
    assert_eq!(report.total_size(), 15);
    assert_eq!(report.categories(), vec![Category::Xcode, Category::Nodejs]);
    let nodejs = report.report_for(Category::Nodejs).expect("nodejs present");
    assert_eq!(nodejs.items.len(), 1);
    assert_eq!(nodejs.total_size(), 5);
    assert!(report.report_for(Category::Brew).is_none());
}

#[test]
fn scan_report_merges_items_of_one_category() {
    let mut report = ScanReport::new();
    report.add_items(
        Category::Rust,
        vec![ScanItem::directory(Category::Rust, "/a/target".to_string(), 1)],
    );
    report.add_items(
        Category::Rust,
        vec![ScanItem::directory(Category::Rust, "/b/target".to_string(), 2)],
    );
    let rep = report.report_for(Category::Rust).expect("rust present");
    assert_eq!(rep.items.len(), 2);
    assert_eq!(rep.total_size(), 3);
}

#[test]
fn scan_report_subset_keeps_only_requested() {
    let mut report = ScanReport::new();
    report.add_items(
        Category::Nodejs,
        vec![ScanItem::directory(Category::Nodejs, "/r/node_modules".to_string(), 5)],
    );
    report.add_items(
        Category::Brew,
        vec![ScanItem::directory(Category::Brew, "/brew".to_string(), 9)],
    );

    let subset = report.subset(&vec![Category::Nodejs, Category::Xcode]);
    assert_eq!(subset.categories(), vec![Category::Nodejs]);
    assert_eq!(subset.total_size(), 5);
    assert!(subset.report_for(Category::Brew).is_none());
}
