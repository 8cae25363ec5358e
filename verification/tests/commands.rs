use pure::error::AppError;
use pure::fmt::display_path;
use pure::fmt::format_bytes;
use pure::fmt::resolve_roots_with_current;
use pure::model::Category;
use pure::run::parse_confirmation;
use pure::run::parse_selection;
use pure::run::resolve_categories;

#[test]
fn format_bytes_exact_values() {
    assert_eq!(format_bytes(0), "0 B");
    assert_eq!(format_bytes(5), "5 B");
    assert_eq!(format_bytes(5300), "5.3 KB");
}

#[test]
fn display_path_shortens_home() {
    let home = Some("/Users/dev".to_string());
    assert_eq!(display_path("/Users/dev/project", &home), "~/project");
    assert_eq!(display_path("/Users/dev", &home), "~");
    assert_eq!(display_path("/Users/devoid", &home), "/Users/devoid");
    assert_eq!(display_path("/var/tmp", &home), "/var/tmp");
    assert_eq!(display_path("/var/tmp", &None), "/var/tmp");
}

#[test]
fn roots_default_to_desktop_under_home() {
    let home = Some("/Users/dev".to_string());
    let cwd = "/work".to_string();

    let defaulted = resolve_roots_with_current(&vec![], false, &home, &cwd);
    assert_eq!(defaulted, vec!["/Users/dev/Desktop".to_string()]);

    let current = resolve_roots_with_current(&vec![], true, &home, &cwd);
    assert_eq!(current, vec!["/work".to_string()]);

    let explicit = resolve_roots_with_current(&vec!["/data".to_string()], false, &home, &cwd);
    assert_eq!(explicit, vec!["/data".to_string()]);

    let homeless = resolve_roots_with_current(&vec![], false, &None, &cwd);
    assert_eq!(homeless, vec!["/work".to_string()]);
}

#[test]
fn categories_default_to_all() {
    let all = resolve_categories(vec![], false);
    assert_eq!(all.len(), 6);
    let flagged = resolve_categories(vec![Category::Rust], true);
    assert_eq!(flagged.len(), 6);
    let explicit = resolve_categories(vec![Category::Rust, Category::Brew], false);
    assert_eq!(explicit, vec![Category::Rust, Category::Brew]);
}

#[test]
fn selection_parses_names_and_indices() {
    assert_eq!(parse_selection("python\n").unwrap(), vec![Category::Python]);
    assert_eq!(parse_selection("1,3").unwrap(), vec![Category::Xcode, Category::Rust]);
    assert_eq!(
        parse_selection(" nodejs , brew ").unwrap(),
        vec![Category::Nodejs, Category::Brew]
    );
    assert_eq!(parse_selection("python, python").unwrap(), vec![Category::Python]);
    assert_eq!(parse_selection("6").unwrap(), vec![Category::Docker]);
    assert_eq!(parse_selection(" 2 , xcode").unwrap(), vec![Category::Python, Category::Xcode]);
    assert_eq!(parse_selection("ALL\n").unwrap().len(), 6);
}

#[test]
fn selection_rejects_unknown_and_cancels_on_empty() {
    match parse_selection("\n") {
        Err(AppError::Cancelled) => {}
        _ => panic!("empty input must cancel"),
    }
    match parse_selection(" , ,") {
        Err(AppError::Cancelled) => {}
        _ => panic!("only separators must cancel"),
    }
    match parse_selection("bogus") {
        Err(AppError::InvalidCategory(name)) => assert_eq!(name, "bogus"),
        _ => panic!("unknown token must be rejected"),
    }
    match parse_selection("7") {
        Err(AppError::InvalidCategory(_)) => {}
        _ => panic!("out-of-range index must be rejected"),
    }
}

#[test]
fn confirmation_accepts_yes_only() {
    assert!(parse_confirmation("y\n"));
    assert!(parse_confirmation("YES"));
    assert!(parse_confirmation(" yes "));
    assert!(!parse_confirmation("n"));
    assert!(!parse_confirmation(""));
    assert!(!parse_confirmation("yep"));
}

#[test]
fn error_messages_match_their_variants() {
    assert_eq!(AppError::Cancelled.message(), "Operation cancelled by user");
    assert_eq!(
        AppError::InvalidCategory("dev2".to_string()).message(),
        "Unknown category 'dev2'"
    );
    assert_eq!(AppError::Io("boom".to_string()).message(), "I/O error: boom");
    assert_eq!(
        AppError::Glob("bad".to_string()).message(),
        "Invalid exclude pattern: bad"
    );
}
