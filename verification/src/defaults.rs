//! The default value of every configuration field. A configuration
//! loaded from disk falls back to these, field by field.

use vstd::prelude::*;

use crate::config::str_views;

verus! {

/// Default User-Agent header for HTTP requests.
pub fn user_agent() -> (r: String)
    ensures
        r@ == "Mozilla/5.0 (compatible; uRing/1.0)"@,
{
    String::from_str("Mozilla/5.0 (compatible; uRing/1.0)")
}

/// Default request timeout in seconds.
pub fn timeout() -> (r: u64)
    ensures
        r == 30,
{
    30
}

/// Default timeout for sitemap and discovery requests, in seconds.
pub fn sitemap_timeout() -> (r: u64)
    ensures
        r == 10,
{
    10
}

/// Default delay between requests, in milliseconds.
pub fn request_delay() -> (r: u64)
    ensures
        r == 100,
{
    100
}

/// Default number of concurrent requests.
pub fn max_concurrent() -> (r: usize)
    ensures
        r == 5,
{
    5
}

/// Default path of the seed file.
pub fn seed_file() -> (r: String)
    ensures
        r@ == "data/seed.toml"@,
{
    String::from_str("data/seed.toml")
}

/// Default output directory.
pub fn output_dir() -> (r: String)
    ensures
        r@ == "data/output"@,
{
    String::from_str("data/output")
}

/// Default file name of the departments list.
pub fn departments_file() -> (r: String)
    ensures
        r@ == "yonsei_departments.json"@,
{
    String::from_str("yonsei_departments.json")
}

/// Default file name of the departments-with-boards list.
pub fn departments_boards_file() -> (r: String)
    ensures
        r@ == "yonsei_departments_boards.json"@,
{
    String::from_str("yonsei_departments_boards.json")
}

/// Default file name of the manual-review list.
pub fn manual_review_file() -> (r: String)
    ensures
        r@ == "manual_review_needed.json"@,
{
    String::from_str("manual_review_needed.json")
}

/// Default cap on a discovered board name's length; longer text is
/// likely a notice title.
pub fn max_board_name_length() -> (r: usize)
    ensures
        r == 20,
{
    20
}

/// Default URL patterns excluded from board discovery.
pub fn blacklist_patterns() -> (r: Vec<String>)
    ensures
        str_views(r@) == seq![
            "articleNo"@,
            "article_no"@,
            "mode=view"@,
            "seq"@,
            "view.do"@,
            "board_seq"@,
        ],
{
    let mut v: Vec<String> = Vec::new();
    v.push(String::from_str("articleNo"));
    v.push(String::from_str("article_no"));
    v.push(String::from_str("mode=view"));
    v.push(String::from_str("seq"));
    v.push(String::from_str("view.do"));
    v.push(String::from_str("board_seq"));
    proof {
        assert(str_views(v@) =~= seq![
            "articleNo"@,
            "article_no"@,
            "mode=view"@,
            "seq"@,
            "view.do"@,
            "board_seq"@,
        ]);
    }
    v
}

/// JSON file output is enabled by default.
pub fn json_enabled() -> (r: bool)
    ensures
        r == true,
{
    true
}

/// JSON output is pretty-printed by default.
pub fn json_pretty() -> (r: bool)
    ensures
        r == true,
{
    true
}

/// Default display template for a notice.
pub fn notice_format() -> (r: String)
    ensures
        r@ == "[{dept_name}:{board_name}] {title}\n   {date}\n   {link}"@,
{
    String::from_str("[{dept_name}:{board_name}] {title}\n   {date}\n   {link}")
}

/// Default log level.
pub fn log_level() -> (r: String)
    ensures
        r@ == "info"@,
{
    String::from_str("info")
}

/// Progress indicators are shown by default.
pub fn show_progress() -> (r: bool)
    ensures
        r == true,
{
    true
}

/// Default start-up message.
pub fn msg_starting() -> (r: String)
    ensures
        r@ == "uRing Crawler starting...\n"@,
{
    String::from_str("uRing Crawler starting...\n")
}

/// Default message after the site map is loaded.
pub fn msg_loaded() -> (r: String)
    ensures
        r@ == "Loaded {count_dept} department(s) with {count_board} board(s)\n"@,
{
    String::from_str("Loaded {count_dept} department(s) with {count_board} board(s)\n")
}

/// Default message for the total number of notices.
pub fn msg_total() -> (r: String)
    ensures
        r@ == "\nTotal notices fetched: {total_count}\n"@,
{
    String::from_str("\nTotal notices fetched: {total_count}\n")
}

/// Default message after notices are saved.
pub fn msg_saved() -> (r: String)
    ensures
        r@ == "\nSaved notices to {output_path}"@,
{
    String::from_str("\nSaved notices to {output_path}")
}

/// Default separator character for long rules.
pub fn msg_separator() -> (r: String)
    ensures
        r@ == "="@,
{
    String::from_str("=")
}

/// Default separator character for short rules.
pub fn msg_separator_short() -> (r: String)
    ensures
        r@ == "-"@,
{
    String::from_str("-")
}

/// Default message for a configuration that could not be loaded.
pub fn err_config_load() -> (r: String)
    ensures
        r@ == "Failed to load config: {}. Using defaults."@,
{
    String::from_str("Failed to load config: {}. Using defaults.")
}

} // verus!
