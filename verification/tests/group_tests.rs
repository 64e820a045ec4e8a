use crawler::error::CrawlerError;
use crawler::group::group_notices;
use crawler::group::sanitize_board_filename;
use crawler::model::Notice;

fn notice(campus: &str, dept: &str, board: &str, title: &str) -> Notice {
    Notice {
        campus: campus.to_string(),
        college: "".to_string(),
        department_id: dept.to_lowercase(),
        department_name: dept.to_string(),
        board_id: board.to_lowercase(),
        board_name: board.to_string(),
        title: title.to_string(),
        date: "2024-01-01".to_string(),
        link: "https://example.com/x".to_string(),
    }
}

#[test]
fn test_group_notices_three_levels() {
    let notices = vec![
        notice("Main", "CS", "General", "first"),
        notice("Main", "CS", "Events", "second"),
        notice("Main", "Math", "General", "third"),
        notice("North", "CS", "General", "fourth"),
        notice("Main", "CS", "General", "fifth"),
    ];
    let grouped = group_notices(&notices);
    assert_eq!(grouped.len(), 2);
    assert_eq!(grouped[0].campus, "Main");
    assert_eq!(grouped[1].campus, "North");
    let main = &grouped[0];
    assert_eq!(main.departments.len(), 2);
    assert_eq!(main.departments[0].department_name, "CS");
    assert_eq!(main.departments[1].department_name, "Math");
    let cs = &main.departments[0];
    assert_eq!(cs.boards.len(), 2);
    assert_eq!(cs.boards[0].board_name, "General");
    assert_eq!(cs.boards[1].board_name, "Events");
    // Merge order is preserved within the leaf.
    assert_eq!(cs.boards[0].notices.len(), 2);
    assert_eq!(cs.boards[0].notices[0].title, "first");
    assert_eq!(cs.boards[0].notices[1].title, "fifth");
    assert_eq!(grouped[1].departments[0].boards[0].notices[0].title, "fourth");
}

#[test]
fn test_group_notices_keeps_every_record() {
    let notices = vec![
        notice("A", "D", "B", "one"),
        notice("A", "D", "B", "one"),
    ];
    let grouped = group_notices(&notices);
    // Duplicates are not collapsed.
    assert_eq!(grouped[0].departments[0].boards[0].notices.len(), 2);
}

#[test]
fn test_sanitize_board_filename() {
    assert_eq!(sanitize_board_filename("General Board!"), "General-Board-");
    assert_eq!(sanitize_board_filename("notices2024"), "notices2024");
    assert_eq!(sanitize_board_filename("a/b\\c"), "a-b-c");
}

#[test]
fn test_error_messages() {
    let e = CrawlerError::Url("nope".to_string());
    assert_eq!(e.message(), "URL parsing failed: nope");
    let e = CrawlerError::Selector {
        selector: "li..[".to_string(),
        message: "bad token".to_string(),
    };
    assert_eq!(e.message(), "Invalid selector 'li..[': bad token");
    let e = CrawlerError::Fetch("timed out".to_string());
    assert_eq!(e.message(), "HTTP request failed: timed out");
    let e = CrawlerError::Config("missing".to_string());
    assert_eq!(e.message(), "Configuration error: missing");
}

#[test]
fn test_notice_format_template() {
    let n = notice("Main", "CS", "General", "hello");
    let line = n.format("{dept_name}/{board_name}: {title} ({date}) {link}");
    assert_eq!(line, "CS/General: hello (2024-01-01) https://example.com/x");
}
