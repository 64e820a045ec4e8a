use crawler::config::Config;
use crawler::config::join_path;
use crawler::model::Board;

#[test]
fn test_defaults() {
    let config = Config::default();
    assert_eq!(config.crawler.user_agent, "Mozilla/5.0 (compatible; uRing/1.0)");
    assert_eq!(config.crawler.timeout_secs, 30);
    assert_eq!(config.crawler.sitemap_timeout_secs, 10);
    assert_eq!(config.crawler.request_delay_ms, 100);
    assert_eq!(config.crawler.max_concurrent, 5);
    assert_eq!(config.paths.seed_file, "data/seed.toml");
    assert_eq!(config.paths.output_dir, "data/output");
    assert_eq!(config.discovery.max_board_name_length, 20);
    assert_eq!(
        config.discovery.blacklist_patterns,
        vec!["articleNo", "article_no", "mode=view", "seq", "view.do", "board_seq"]
    );
    assert!(config.cleaning.title_remove_patterns.is_empty());
    assert!(config.cleaning.date_remove_patterns.is_empty());
    assert!(config.cleaning.date_replacements.is_empty());
    assert!(!config.output.console_enabled);
    assert!(config.output.json_enabled);
    assert!(config.output.json_pretty);
    assert_eq!(config.logging.level, "info");
    assert!(config.logging.show_progress);
}

#[test]
fn test_path_helpers() {
    let config = Config::default();
    assert_eq!(config.output_dir("/srv/crawl"), "/srv/crawl/data/output");
    assert_eq!(config.seed_path("/srv/crawl"), "/srv/crawl/data/seed.toml");
    assert_eq!(
        config.departments_path("/srv/crawl"),
        "/srv/crawl/data/output/yonsei_departments.json"
    );
    assert_eq!(
        config.departments_boards_path("/srv/crawl"),
        "/srv/crawl/data/output/yonsei_departments_boards.json"
    );
    assert_eq!(
        config.manual_review_path("/srv/crawl"),
        "/srv/crawl/data/output/manual_review_needed.json"
    );
}

#[test]
fn test_join_path_separators() {
    assert_eq!(join_path("a", "b"), "a/b");
    assert_eq!(join_path("a/", "b"), "a/b");
    assert_eq!(join_path("", "b"), "b");
}

#[test]
fn test_default_attr() {
    assert_eq!(Board::default_attr(), "href");
}
