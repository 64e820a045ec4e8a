//! Configuration value types: crawling behavior, file paths, discovery
//! rules, text-cleaning rules, output and logging settings, and the
//! localized message catalogue. Every field has a defined default;
//! loading the values from disk is the caller's concern.

use vstd::prelude::*;

verus! {

/// A text replacement rule: every occurrence of `from` becomes `to`.
#[derive(Debug)]
pub struct Replacement {
    pub from: String,
    pub to: String,
}

/// Text cleaning settings: ordered removal patterns for titles and
/// dates, and ordered replacement pairs for dates.
#[derive(Debug)]
pub struct CleaningConfig {
    /// Patterns removed from titles.
    pub title_remove_patterns: Vec<String>,
    /// Patterns removed from dates.
    pub date_remove_patterns: Vec<String>,
    /// Replacements applied to dates, after the removals.
    pub date_replacements: Vec<Replacement>,
}

/// The views of a list of patterns.
pub open spec fn str_views(v: Seq<String>) -> Seq<Seq<char>> {
    v.map_values(|s: String| s@)
}

/// The views of a list of replacement pairs.
pub open spec fn rep_views(v: Seq<Replacement>) -> Seq<(Seq<char>, Seq<char>)> {
    v.map_values(|r: Replacement| (r.from@, r.to@))
}

/// The mathematical content of a `CleaningConfig`.
pub struct CleaningView {
    pub title_remove_patterns: Seq<Seq<char>>,
    pub date_remove_patterns: Seq<Seq<char>>,
    pub date_replacements: Seq<(Seq<char>, Seq<char>)>,
}

impl View for CleaningConfig {
    type V = CleaningView;

    open spec fn view(&self) -> CleaningView {
        CleaningView {
            title_remove_patterns: str_views(self.title_remove_patterns@),
            date_remove_patterns: str_views(self.date_remove_patterns@),
            date_replacements: rep_views(self.date_replacements@),
        }
    }
}

impl CleaningConfig {
    /// Clean text by removing the given patterns and applying the given
    /// replacements, in order.
    pub fn clean(&self, text: &str, patterns: &Vec<String>, replacements: &Vec<Replacement>) -> (r:
        String)
        ensures
            r@ == crate::text::clean_spec(text@, str_views(patterns@), rep_views(replacements@)),
    {
        crate::text::clean(text, patterns, replacements)
    }

    /// Clean a title string with this rule set.
    pub fn clean_title(&self, text: &str) -> (r: String)
        ensures
            r@ == crate::text::clean_spec(
                text@,
                self@.title_remove_patterns,
                Seq::<(Seq<char>, Seq<char>)>::empty(),
            ),
    {
        crate::text::clean_title(text, self)
    }

    /// Clean a date string with this rule set.
    pub fn clean_date(&self, text: &str) -> (r: String)
        ensures
            r@ == crate::text::clean_spec(
                text@,
                self@.date_remove_patterns,
                self@.date_replacements,
            ),
    {
        crate::text::clean_date(text, self)
    }

    /// Collapse whitespace runs into single spaces and trim the ends.
    pub fn normalize_whitespace(s: &str) -> (r: String)
        ensures
            r@ == crate::text::norm_ws_spec(s@),
    {
        crate::text::normalize_whitespace(s)
    }
}

impl Default for CleaningConfig {
    /// No removal patterns and no replacements.
    fn default() -> (r: Self)
        ensures
            r@.title_remove_patterns.len() == 0,
            r@.date_remove_patterns.len() == 0,
            r@.date_replacements.len() == 0,
    {
        CleaningConfig {
            title_remove_patterns: Vec::new(),
            date_remove_patterns: Vec::new(),
            date_replacements: Vec::new(),
        }
    }
}

/// HTTP client and crawling behavior settings.
#[derive(Debug)]
pub struct CrawlerConfig {
    /// User-Agent header for HTTP requests.
    pub user_agent: String,
    /// Request timeout in seconds.
    pub timeout_secs: u64,
    /// Longer timeout for sitemap and discovery requests.
    pub sitemap_timeout_secs: u64,
    /// Delay between requests in milliseconds.
    pub request_delay_ms: u64,
    /// Maximum number of concurrent requests.
    pub max_concurrent: usize,
}

impl Default for CrawlerConfig {
    fn default() -> (r: Self)
        ensures
            r.user_agent@ == "Mozilla/5.0 (compatible; uRing/1.0)"@,
            r.timeout_secs == 30,
            r.sitemap_timeout_secs == 10,
            r.request_delay_ms == 100,
            r.max_concurrent == 5,
    {
        CrawlerConfig {
            user_agent: crate::defaults::user_agent(),
            timeout_secs: crate::defaults::timeout(),
            sitemap_timeout_secs: crate::defaults::sitemap_timeout(),
            request_delay_ms: crate::defaults::request_delay(),
            max_concurrent: crate::defaults::max_concurrent(),
        }
    }
}

/// File path settings.
#[derive(Debug)]
pub struct PathsConfig {
    /// Path to the seed file, relative to the project root.
    pub seed_file: String,
    /// Output directory path, relative to the project root.
    pub output_dir: String,
    /// Output directory for crawled data.
    pub output: String,
    /// File name of the departments list.
    pub departments_file: String,
    /// File name of the departments-with-boards list.
    pub departments_boards_file: String,
    /// File name of the manual-review list.
    pub manual_review_file: String,
}

impl Default for PathsConfig {
    fn default() -> (r: Self)
        ensures
            r.seed_file@ == "data/seed.toml"@,
            r.output_dir@ == "data/output"@,
            r.output@ == "data/output"@,
            r.departments_file@ == "yonsei_departments.json"@,
            r.departments_boards_file@ == "yonsei_departments_boards.json"@,
            r.manual_review_file@ == "manual_review_needed.json"@,
    {
        PathsConfig {
            seed_file: crate::defaults::seed_file(),
            output_dir: crate::defaults::output_dir(),
            output: crate::defaults::output_dir(),
            departments_file: crate::defaults::departments_file(),
            departments_boards_file: crate::defaults::departments_boards_file(),
            manual_review_file: crate::defaults::manual_review_file(),
        }
    }
}

/// Board discovery settings.
#[derive(Debug)]
pub struct DiscoveryConfig {
    /// Longest text still taken for a board name.
    pub max_board_name_length: usize,
    /// URL patterns excluded from board discovery.
    pub blacklist_patterns: Vec<String>,
}

impl Default for DiscoveryConfig {
    fn default() -> (r: Self)
        ensures
            r.max_board_name_length == 20,
            str_views(r.blacklist_patterns@) == seq![
                "articleNo"@,
                "article_no"@,
                "mode=view"@,
                "seq"@,
                "view.do"@,
                "board_seq"@,
            ],
    {
        DiscoveryConfig {
            max_board_name_length: crate::defaults::max_board_name_length(),
            blacklist_patterns: crate::defaults::blacklist_patterns(),
        }
    }
}

/// Output format settings.
#[derive(Debug)]
pub struct OutputConfig {
    /// Whether notices are echoed to the console.
    pub console_enabled: bool,
    /// Whether JSON files are written.
    pub json_enabled: bool,
    /// Whether JSON output is pretty-printed.
    pub json_pretty: bool,
    /// Display template for a notice.
    pub notice_format: String,
}

impl Default for OutputConfig {
    fn default() -> (r: Self)
        ensures
            r.console_enabled == false,
            r.json_enabled == true,
            r.json_pretty == true,
            r.notice_format@ == "[{dept_name}:{board_name}] {title}\n   {date}\n   {link}"@,
    {
        OutputConfig {
            console_enabled: false,
            json_enabled: crate::defaults::json_enabled(),
            json_pretty: crate::defaults::json_pretty(),
            notice_format: crate::defaults::notice_format(),
        }
    }
}

/// Logging settings.
#[derive(Debug)]
pub struct LoggingConfig {
    /// Log level: debug, info, warn or error.
    pub level: String,
    /// Whether progress indicators are shown.
    pub show_progress: bool,
}

impl Default for LoggingConfig {
    fn default() -> (r: Self)
        ensures
            r.level@ == "info"@,
            r.show_progress == true,
    {
        LoggingConfig {
            level: crate::defaults::log_level(),
            show_progress: crate::defaults::show_progress(),
        }
    }
}

/// Root application configuration. Every field has a defined default.
#[derive(Debug)]
pub struct Config {
    /// HTTP and crawling behavior settings.
    pub crawler: CrawlerConfig,
    /// File path settings.
    pub paths: PathsConfig,
    /// Board discovery rules.
    pub discovery: DiscoveryConfig,
    /// Text preprocessing settings.
    pub cleaning: CleaningConfig,
    /// Output format settings.
    pub output: OutputConfig,
    /// Logging settings.
    pub logging: LoggingConfig,
}

impl Default for Config {
    /// Every section at its defaults.
    fn default() -> (r: Self)
        ensures
            r.crawler.user_agent@ == "Mozilla/5.0 (compatible; uRing/1.0)"@,
            r.crawler.timeout_secs == 30,
            r.crawler.sitemap_timeout_secs == 10,
            r.crawler.request_delay_ms == 100,
            r.crawler.max_concurrent == 5,
            r.paths.seed_file@ == "data/seed.toml"@,
            r.paths.output_dir@ == "data/output"@,
            r.paths.output@ == "data/output"@,
            r.discovery.max_board_name_length == 20,
            r.cleaning@.title_remove_patterns.len() == 0,
            r.cleaning@.date_remove_patterns.len() == 0,
            r.cleaning@.date_replacements.len() == 0,
            r.output.console_enabled == false,
            r.output.json_enabled == true,
            r.output.json_pretty == true,
            r.logging.level@ == "info"@,
            r.logging.show_progress == true,
    {
        Config {
            crawler: CrawlerConfig::default(),
            paths: PathsConfig::default(),
            discovery: DiscoveryConfig::default(),
            cleaning: CleaningConfig::default(),
            output: OutputConfig::default(),
            logging: LoggingConfig::default(),
        }
    }
}

/// Two path segments joined with a single `/`: the right segment alone
/// when the left is empty, no doubled separator when the left already
/// ends in one.
pub open spec fn path_join_spec(a: Seq<char>, b: Seq<char>) -> Seq<char> {
    if a.len() == 0 {
        b
    } else if a.last() == '/' {
        a + b
    } else {
        a + seq!['/'] + b
    }
}

/// Join two path segments with a single `/` separator.
pub fn join_path(a: &str, b: &str) -> (r: String)
    ensures
        r@ == path_join_spec(a@, b@),
{
    let n: usize = a.unicode_len();
    if n == 0 {
        return b.to_owned();
    }
    let mut out = a.to_owned();
    if a.get_char(n - 1) != '/' {
        out.append("/");
        proof {
            reveal_strlit("/");
            assert("/"@ =~= seq!['/']);
        }
    }
    out.append(b);
    out
}

impl Config {
    /// The full path of the output directory under `base`.
    pub fn output_dir(&self, base: &str) -> (r: String)
        ensures
            r@ == path_join_spec(base@, self.paths.output_dir@),
    {
        join_path(base, self.paths.output_dir.as_str())
    }

    /// The full path of the seed file under `base`.
    pub fn seed_path(&self, base: &str) -> (r: String)
        ensures
            r@ == path_join_spec(base@, self.paths.seed_file@),
    {
        join_path(base, self.paths.seed_file.as_str())
    }

    /// The full path of the departments file under `base`.
    pub fn departments_path(&self, base: &str) -> (r: String)
        ensures
            r@ == path_join_spec(
                path_join_spec(base@, self.paths.output_dir@),
                self.paths.departments_file@,
            ),
    {
        let dir = self.output_dir(base);
        join_path(dir.as_str(), self.paths.departments_file.as_str())
    }

    /// The full path of the departments-with-boards file under `base`.
    pub fn departments_boards_path(&self, base: &str) -> (r: String)
        ensures
            r@ == path_join_spec(
                path_join_spec(base@, self.paths.output_dir@),
                self.paths.departments_boards_file@,
            ),
    {
        let dir = self.output_dir(base);
        join_path(dir.as_str(), self.paths.departments_boards_file.as_str())
    }

    /// The full path of the manual-review file under `base`.
    pub fn manual_review_path(&self, base: &str) -> (r: String)
        ensures
            r@ == path_join_spec(
                path_join_spec(base@, self.paths.output_dir@),
                self.paths.manual_review_file@,
            ),
    {
        let dir = self.output_dir(base);
        join_path(dir.as_str(), self.paths.manual_review_file.as_str())
    }
}

/// Localized user-interface messages.
#[derive(Debug)]
pub struct Messages {
    pub crawler_starting: String,
    pub loaded_departments: String,
    pub total_notices: String,
    pub saved_notices: String,
    pub separator_line: String,
    pub separator_short: String,
}

impl Default for Messages {
    fn default() -> (r: Self)
        ensures
            r.crawler_starting@ == "uRing Crawler starting...\n"@,
            r.loaded_departments@ == "Loaded {count_dept} department(s) with {count_board} board(s)\n"@,
            r.total_notices@ == "\nTotal notices fetched: {total_count}\n"@,
            r.saved_notices@ == "\nSaved notices to {output_path}"@,
            r.separator_line@ == "="@,
            r.separator_short@ == "-"@,
    {
        Messages {
            crawler_starting: crate::defaults::msg_starting(),
            loaded_departments: crate::defaults::msg_loaded(),
            total_notices: crate::defaults::msg_total(),
            saved_notices: crate::defaults::msg_saved(),
            separator_line: crate::defaults::msg_separator(),
            separator_short: crate::defaults::msg_separator_short(),
        }
    }
}

/// Localized error messages.
#[derive(Debug)]
pub struct Errors {
    pub config_load_failed: String,
}

impl Default for Errors {
    fn default() -> (r: Self)
        ensures
            r.config_load_failed@ == "Failed to load config: {}. Using defaults."@,
    {
        Errors { config_load_failed: crate::defaults::err_config_load() }
    }
}

/// Localization settings: the message catalogue and error texts.
#[derive(Debug)]
pub struct LocaleConfig {
    /// User-interface messages.
    pub messages: Messages,
    /// Error messages.
    pub errors: Errors,
}

impl Default for LocaleConfig {
    fn default() -> (r: Self)
        ensures
            r.messages.crawler_starting@ == "uRing Crawler starting...\n"@,
            r.messages.separator_line@ == "="@,
            r.errors.config_load_failed@ == "Failed to load config: {}. Using defaults."@,
    {
        LocaleConfig { messages: Messages::default(), errors: Errors::default() }
    }
}

} // verus!
