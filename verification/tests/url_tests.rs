use crawler::urlres::get_domain;
use crawler::urlres::resolve;
use crawler::urlres::resolve_url;
use crawler::urlres::url_well_formed;

#[test]
fn test_resolve_url() {
    let base = "https://example.com/path/";
    assert_eq!(resolve_url(base, "page.html"), "https://example.com/path/page.html");
    assert_eq!(resolve_url(base, "/root.html"), "https://example.com/root.html");
    assert_eq!(resolve_url(base, "https://other.com/x"), "https://other.com/x");
}

#[test]
fn test_resolve_absolute_url() {
    assert_eq!(
        resolve("https://example.com/path/", "https://other.com/page"),
        "https://other.com/page"
    );
}

#[test]
fn test_resolve_absolute_path() {
    assert_eq!(
        resolve("https://example.com/path/", "/root.html"),
        "https://example.com/root.html"
    );
}

#[test]
fn test_resolve_relative_path() {
    assert_eq!(
        resolve("https://example.com/path/", "page.html"),
        "https://example.com/path/page.html"
    );
}

#[test]
fn test_resolve_relative_from_file() {
    assert_eq!(
        resolve("https://example.com/path/index.html", "other.html"),
        "https://example.com/path/other.html"
    );
}

#[test]
fn test_resolve_base_without_path() {
    assert_eq!(resolve("https://example.com", "page.html"), "https://example.com/page.html");
    assert_eq!(resolve("https://example.com", "/root.html"), "https://example.com/root.html");
}

#[test]
fn test_get_domain() {
    assert_eq!(
        get_domain("https://Example.COM/path"),
        Some("example.com".to_string())
    );
    assert_eq!(get_domain("invalid-url"), None);
}

#[test]
fn test_url_well_formed() {
    assert!(url_well_formed("https://example.com/x"));
    assert!(url_well_formed("http://a"));
    assert!(!url_well_formed("example.com/x"));
    assert!(!url_well_formed("://missing-scheme"));
    assert!(!url_well_formed("https://"));
}
