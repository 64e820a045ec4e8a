use crawler::config::CleaningConfig;
use crawler::error::CrawlerError;
use crawler::extract::extract_board;
use crawler::model::Board;
use crawler::model::CrawlTask;

fn sample_board() -> Board {
    Board {
        id: "b1".to_string(),
        name: "General".to_string(),
        url: "https://example.com/board/list.html".to_string(),
        row_selector: "li.row".to_string(),
        title_selector: "span.title a".to_string(),
        date_selector: "span.date".to_string(),
        attr_name: "href".to_string(),
        link_selector: None,
    }
}

fn sample_task(board: Board) -> CrawlTask {
    CrawlTask {
        campus: "Main".to_string(),
        college: "Engineering".to_string(),
        department_id: "cs".to_string(),
        department_name: "Computer Science".to_string(),
        board,
    }
}

fn no_rules() -> CleaningConfig {
    CleaningConfig {
        title_remove_patterns: vec![],
        date_remove_patterns: vec![],
        date_replacements: vec![],
    }
}

const PAGE: &str = r#"<html><body><ul>
<li class="row"><span class="title"><a href="view.html?id=1">  First   notice </a></span><span class="date">2024. 01. 02.</span></li>
<li class="row"><span class="title"><a href="/abs.html">Second</a></span><span class="date">2024-01-03</span></li>
<li class="row"><span class="title"><a href="https://other.com/x">Third</a></span><span class="date">2024-01-04</span></li>
</ul></body></html>"#;

#[test]
fn test_extract_resolves_links_and_cleans_titles() {
    let task = sample_task(sample_board());
    let notices = extract_board(PAGE, &task, &no_rules()).unwrap();
    assert_eq!(notices.len(), 3);
    assert_eq!(notices[0].title, "First notice");
    assert_eq!(notices[0].date, "2024. 01. 02.");
    assert_eq!(notices[0].link, "https://example.com/board/view.html?id=1");
    assert_eq!(notices[1].link, "https://example.com/abs.html");
    assert_eq!(notices[2].link, "https://other.com/x");
    assert_eq!(notices[0].campus, "Main");
    assert_eq!(notices[0].college, "Engineering");
    assert_eq!(notices[0].department_id, "cs");
    assert_eq!(notices[0].department_name, "Computer Science");
    assert_eq!(notices[0].board_id, "b1");
    assert_eq!(notices[0].board_name, "General");
}

#[test]
fn test_row_without_date_yields_no_record() {
    let page = r#"<ul>
<li class="row"><span class="title"><a href="a.html">Has both</a></span><span class="date">2024</span></li>
<li class="row"><span class="title"><a href="b.html">Title only</a></span></li>
</ul>"#;
    let task = sample_task(sample_board());
    let notices = extract_board(page, &task, &no_rules()).unwrap();
    assert_eq!(notices.len(), 1);
    assert_eq!(notices[0].title, "Has both");
}

#[test]
fn test_row_with_empty_cleaned_title_yields_no_record() {
    let page = r#"<ul>
<li class="row"><span class="title"><a href="a.html">[notice]</a></span><span class="date">2024-01-01</span></li>
<li class="row"><span class="title"><a href="b.html">[notice] Kept</a></span><span class="date">2024-01-02</span></li>
</ul>"#;
    let rules = CleaningConfig {
        title_remove_patterns: vec!["[notice]".to_string()],
        date_remove_patterns: vec![],
        date_replacements: vec![],
    };
    let task = sample_task(sample_board());
    let notices = extract_board(page, &task, &rules).unwrap();
    assert_eq!(notices.len(), 1);
    assert_eq!(notices[0].title, "Kept");
}

#[test]
fn test_invalid_selector_aborts_board() {
    let mut board = sample_board();
    board.date_selector = "span..date[".to_string();
    let bad = board.date_selector.clone();
    let task = sample_task(board);
    match extract_board(PAGE, &task, &no_rules()) {
        Err(CrawlerError::Selector { selector, message }) => {
            assert_eq!(selector, bad);
            assert!(!message.is_empty());
        }
        other => panic!("expected a selector error, got {:?}", other),
    }
}

#[test]
fn test_bad_base_url_aborts_board() {
    let mut board = sample_board();
    board.url = "not a url".to_string();
    let task = sample_task(board);
    match extract_board(PAGE, &task, &no_rules()) {
        Err(CrawlerError::Url(u)) => assert_eq!(u, "not a url"),
        other => panic!("expected a URL error, got {:?}", other),
    }
}

#[test]
fn test_link_selector_used_when_configured() {
    let page = r#"<ul>
<li class="row"><span class="title"><a href="title.html">Entry</a></span><span class="date">2024</span><a class="more" href="more.html">more</a></li>
</ul>"#;
    let mut board = sample_board();
    board.link_selector = Some("a.more".to_string());
    let task = sample_task(board);
    let notices = extract_board(page, &task, &no_rules()).unwrap();
    assert_eq!(notices.len(), 1);
    assert_eq!(notices[0].link, "https://example.com/board/more.html");
}

#[test]
fn test_link_selector_falls_back_to_title_element() {
    let page = r#"<ul>
<li class="row"><span class="title"><a href="title.html">Entry</a></span><span class="date">2024</span></li>
</ul>"#;
    let mut board = sample_board();
    board.link_selector = Some("a.more".to_string());
    let task = sample_task(board);
    let notices = extract_board(page, &task, &no_rules()).unwrap();
    assert_eq!(notices.len(), 1);
    assert_eq!(notices[0].link, "https://example.com/board/title.html");
}

#[test]
fn test_missing_attribute_reads_as_empty() {
    let page = r#"<ul>
<li class="row"><span class="title"><a>No href here</a></span><span class="date">2024</span></li>
</ul>"#;
    let task = sample_task(sample_board());
    let notices = extract_board(page, &task, &no_rules()).unwrap();
    assert_eq!(notices.len(), 1);
    // An empty href resolves to the base URL's directory.
    assert_eq!(notices[0].link, "https://example.com/board/");
}
