use pure::config::config_file_path;
use pure::config::parse_config;
use pure::config::render_config;
use pure::config::Config;
use pure::error::AppError;

#[test]
fn append_exclude_deduplicates() {
    let mut config = Config::new();
    config.append_exclude("~/project/node_modules".to_string());
    config.append_exclude("~/project/node_modules".to_string());
    assert_eq!(config.exclude, vec!["~/project/node_modules".to_string()]);
    config.append_exclude("other".to_string());
    assert_eq!(config.exclude.len(), 2);
}

#[test]
fn config_round_trip_keeps_pattern_once() {
    let mut config = Config::new();
    config.append_exclude("~/project/node_modules".to_string());
    config.append_exclude("~/project/node_modules".to_string());

    let lines = render_config(&config);
    assert_eq!(
        lines,
        vec![
            "exclude = [".to_string(),
            "    \"~/project/node_modules\",".to_string(),
            "]".to_string(),
        ]
    );

    let reloaded = parse_config(&lines).expect("rendered config parses");
    assert_eq!(reloaded.exclude, vec!["~/project/node_modules".to_string()]);
    let occurrences = reloaded
        .exclude
        .iter()
        .filter(|p| p.as_str() == "~/project/node_modules")
        .count();
    assert_eq!(occurrences, 1);
}

#[test]
fn empty_config_round_trips() {
    let config = Config::new();
    let lines = render_config(&config);
    assert_eq!(lines, vec!["exclude = []".to_string()]);
    let reloaded = parse_config(&lines).expect("empty config parses");
    assert!(reloaded.exclude.is_empty());
}

#[test]
fn missing_file_is_default_config() {
    let reloaded = parse_config(&vec![]).expect("no lines is the default");
    assert!(reloaded.exclude.is_empty());
}

#[test]
fn malformed_config_is_a_parse_error() {
    let lines = vec!["exclude = [".to_string(), "nonsense".to_string(), "]".to_string()];
    match parse_config(&lines) {
        Err(AppError::ConfigParse(_)) => {}
        other => panic!("expected a parse error, got {:?}", other),
    }

    let lines = vec!["something = 1".to_string()];
    assert!(parse_config(&lines).is_err());
}

#[test]
fn config_path_prefers_override_directory() {
    let from_override = config_file_path(
        &Some("/custom/xdg".to_string()),
        &Some("/home/u/.config".to_string()),
    )
    .expect("path resolves");
    assert_eq!(from_override, "/custom/xdg/pure/config.toml");

    let from_platform = config_file_path(&None, &Some("/home/u/.config".to_string()))
        .expect("path resolves");
    assert_eq!(from_platform, "/home/u/.config/pure/config.toml");

    match config_file_path(&None, &None) {
        Err(AppError::Config(_)) => {}
        other => panic!("expected a configuration error, got {:?}", other),
    }
}

#[test]
fn invalid_exclude_pattern_fails_compilation() {
    let mut config = Config::new();
    config.append_exclude("a{b".to_string());
    match config.compile_excludes(&None) {
        Err(AppError::Glob(_)) => {}
        other => {
            assert!(other.is_err(), "an unclosed alternation must not compile");
        }
    }
}

#[test]
fn home_expansion_in_patterns() {
    let home = Some("/home/user".to_string());
    let expanded =
        pure::exclude::expand_home("~/project/node_modules", &home).expect("expands");
    assert_eq!(expanded, "/home/user/project/node_modules");

    let bare = pure::exclude::expand_home("~", &home).expect("expands");
    assert_eq!(bare, "/home/user");

    let untouched = pure::exclude::expand_home("plain/path", &None).expect("no home needed");
    assert_eq!(untouched, "plain/path");

    assert!(pure::exclude::expand_home("~/x", &None).is_err());
}
