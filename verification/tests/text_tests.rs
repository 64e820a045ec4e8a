use crawler::config::CleaningConfig;
use crawler::config::Replacement;
use crawler::text::clean_date;
use crawler::text::clean_title;
use crawler::text::format_notice;
use crawler::text::normalize_whitespace;

#[test]
fn test_normalize_whitespace() {
    assert_eq!(normalize_whitespace("  hello   world  "), "hello world");
    assert_eq!(normalize_whitespace("hello\nworld"), "hello world");
    assert_eq!(normalize_whitespace("hello\tworld"), "hello world");
}

#[test]
fn test_whitespace_collapse_mixed() {
    assert_eq!(normalize_whitespace("  a   b\n\tc  "), "a b c");
}

#[test]
fn test_clean_title() {
    let config = CleaningConfig {
        title_remove_patterns: vec!["[공지]".to_string(), "[필독]".to_string()],
        date_remove_patterns: vec![],
        date_replacements: vec![],
    };
    assert_eq!(
        clean_title("  [공지] [필독] important notice  ", &config),
        "important notice"
    );
}

#[test]
fn test_clean_title_ascii_markers() {
    let config = CleaningConfig {
        title_remove_patterns: vec!["[notice]".to_string(), "[must-read]".to_string()],
        date_remove_patterns: vec![],
        date_replacements: vec![],
    };
    assert_eq!(clean_title("  [notice] [must-read] important  ", &config), "important");
}

#[test]
fn test_clean_date() {
    let config = CleaningConfig {
        title_remove_patterns: vec![],
        date_remove_patterns: vec!["작성일".to_string()],
        date_replacements: vec![Replacement {
            from: ". ".to_string(),
            to: ".".to_string(),
        }],
    };
    assert_eq!(clean_date("  작성일 : 2023. 01. 01.   ", &config), ": 2023.01.01.");
}

#[test]
fn test_clean_date_ascii_markers() {
    let config = CleaningConfig {
        title_remove_patterns: vec![],
        date_remove_patterns: vec!["posted-on".to_string()],
        date_replacements: vec![Replacement {
            from: ". ".to_string(),
            to: ".".to_string(),
        }],
    };
    assert_eq!(clean_date("  posted-on : 2023. 01. 01.   ", &config), ": 2023.01.01.");
}

#[test]
fn test_clean_is_idempotent_when_nothing_matches_again() {
    let config = CleaningConfig {
        title_remove_patterns: vec!["[ad]".to_string()],
        date_remove_patterns: vec![],
        date_replacements: vec![],
    };
    let once = clean_title("  [ad] spring  festival ", &config);
    let twice = clean_title(&once, &config);
    assert_eq!(once, "spring festival");
    assert_eq!(twice, once);
}

#[test]
fn test_clean_methods_match_free_functions() {
    let config = CleaningConfig {
        title_remove_patterns: vec!["x".to_string()],
        date_remove_patterns: vec!["y".to_string()],
        date_replacements: vec![Replacement {
            from: "-".to_string(),
            to: "/".to_string(),
        }],
    };
    assert_eq!(config.clean_title(" axb "), clean_title(" axb ", &config));
    assert_eq!(config.clean_date(" 2023-01y "), clean_date(" 2023-01y ", &config));
    assert_eq!(
        CleaningConfig::normalize_whitespace(" a  b "),
        normalize_whitespace(" a  b ")
    );
}

#[test]
fn test_format_notice() {
    let format = "D:{dept_name}, B:{board_name}, T:{title}, D:{date}, L:{link}";
    let formatted = format_notice(
        format,
        "cs",
        "general",
        "hello",
        "2023-01-01",
        "http://example.com",
    );
    assert_eq!(
        formatted,
        "D:cs, B:general, T:hello, D:2023-01-01, L:http://example.com"
    );
}
