use crawler::config::CleaningConfig;
use crawler::model::Board;
use crawler::model::Campus;
use crawler::model::College;
use crawler::model::Department;
use crawler::config::Config;
use crawler::schedule::crawl_all_fetched;
use crawler::schedule::Crawler;
use crawler::schedule::effective_concurrency;
use crawler::schedule::enumerate_tasks;
use crawler::schedule::SchedulerState;

fn board(id: &str, url: &str, row_selector: &str) -> Board {
    Board {
        id: id.to_string(),
        name: format!("board {id}"),
        url: url.to_string(),
        row_selector: row_selector.to_string(),
        title_selector: "a.t".to_string(),
        date_selector: "span.d".to_string(),
        attr_name: "href".to_string(),
        link_selector: None,
    }
}

fn campuses() -> Vec<Campus> {
    vec![Campus {
        campus: "Main".to_string(),
        colleges: vec![College {
            name: "Engineering".to_string(),
            departments: vec![Department {
                id: "cs".to_string(),
                name: "Computer Science".to_string(),
                boards: vec![
                    board("b1", "https://example.com/cs/", "li.row"),
                    board("b2", "https://example.com/cs2/", "li.row"),
                ],
            }],
        }],
        departments: vec![Department {
            id: "lib".to_string(),
            name: "Library".to_string(),
            boards: vec![board("b3", "https://example.com/lib/", "li.row")],
        }],
    }]
}

#[test]
fn test_enumerate_tasks_flattening_order() {
    let tasks = enumerate_tasks(&campuses());
    assert_eq!(tasks.len(), 3);
    assert_eq!(tasks[0].board.id, "b1");
    assert_eq!(tasks[0].college, "Engineering");
    assert_eq!(tasks[0].department_id, "cs");
    assert_eq!(tasks[1].board.id, "b2");
    assert_eq!(tasks[2].board.id, "b3");
    assert_eq!(tasks[2].college, "");
    assert_eq!(tasks[2].department_name, "Library");
}

#[test]
fn test_all_departments_pairs_college_context() {
    let cs = &campuses()[0];
    let refs = cs.all_departments();
    assert_eq!(refs.len(), 2);
    assert_eq!(refs[0].college, "Engineering");
    assert_eq!(refs[0].dept.id, "cs");
    assert_eq!(refs[1].college, "");
    assert_eq!(refs[1].dept.id, "lib");
}

#[test]
fn test_effective_concurrency_treats_zero_as_one() {
    assert_eq!(effective_concurrency(0), 1);
    assert_eq!(effective_concurrency(1), 1);
    assert_eq!(effective_concurrency(8), 8);
}

#[test]
fn test_scheduler_never_exceeds_cap() {
    let mut s = SchedulerState::new(2, 5);
    assert_eq!(s.cap, 2);
    let a = s.try_start();
    let b = s.try_start();
    assert_eq!(a, Some(0));
    assert_eq!(b, Some(1));
    assert!(s.in_flight <= s.cap);
    // Both slots taken: nothing more may start.
    assert_eq!(s.try_start(), None);
    s.finish();
    assert_eq!(s.try_start(), Some(2));
    assert_eq!(s.try_start(), None);
    s.finish();
    s.finish();
    assert_eq!(s.try_start(), Some(3));
    assert_eq!(s.try_start(), Some(4));
    // All tasks handed out: nothing more to start.
    assert_eq!(s.try_start(), None);
    assert!(!s.all_done());
    s.finish();
    s.finish();
    assert!(s.all_done());
}

#[test]
fn test_scheduler_zero_cap_still_makes_progress() {
    let mut s = SchedulerState::new(0, 2);
    assert_eq!(s.cap, 1);
    assert_eq!(s.try_start(), Some(0));
    assert_eq!(s.try_start(), None);
    s.finish();
    assert_eq!(s.try_start(), Some(1));
    s.finish();
    assert!(s.all_done());
}

const PAGE: &str = r#"<ul>
<li class="row"><a class="t" href="a.html">One</a><span class="d">2024</span></li>
<li class="row"><a class="t" href="b.html">Two</a><span class="d">2024</span></li>
</ul>"#;

fn no_rules() -> CleaningConfig {
    CleaningConfig {
        title_remove_patterns: vec![],
        date_remove_patterns: vec![],
        date_replacements: vec![],
    }
}

#[test]
fn test_crawl_merges_all_successful_boards() {
    let tasks = enumerate_tasks(&campuses());
    let pages = vec![
        Ok(PAGE.to_string()),
        Ok(PAGE.to_string()),
        Ok(PAGE.to_string()),
    ];
    let notices = crawl_all_fetched(&tasks, &pages, &no_rules());
    // Three boards, two produced rows each.
    assert_eq!(notices.len(), 6);
    assert_eq!(notices[0].board_id, "b1");
    assert_eq!(notices[0].title, "One");
    assert_eq!(notices[0].link, "https://example.com/cs/a.html");
    assert_eq!(notices[5].board_id, "b3");
}

#[test]
fn test_fetch_failure_is_isolated() {
    let tasks = enumerate_tasks(&campuses());
    let pages = vec![
        Ok(PAGE.to_string()),
        Err("connection refused".to_string()),
        Ok(PAGE.to_string()),
    ];
    let notices = crawl_all_fetched(&tasks, &pages, &no_rules());
    assert_eq!(notices.len(), 4);
    assert!(notices.iter().all(|n| n.board_id != "b2"));
}

#[test]
fn test_crawler_front_matches_free_functions() {
    let crawler = Crawler::new(Config::default());
    let tasks = crawler.tasks(&campuses());
    assert_eq!(tasks.len(), 3);
    let pages = vec![
        Ok(PAGE.to_string()),
        Ok(PAGE.to_string()),
        Err("offline".to_string()),
    ];
    let notices = crawler.collect_notices(&tasks, &pages);
    assert_eq!(notices.len(), 4);
}

#[test]
fn test_invalid_selector_board_is_isolated() {
    let mut cs = campuses();
    cs[0].colleges[0].departments[0].boards[1].row_selector = "li..[".to_string();
    let tasks = enumerate_tasks(&cs);
    let pages = vec![
        Ok(PAGE.to_string()),
        Ok(PAGE.to_string()),
        Ok(PAGE.to_string()),
    ];
    let notices = crawl_all_fetched(&tasks, &pages, &no_rules());
    // The board with the broken selector contributes nothing; the other
    // two still deliver their records.
    assert_eq!(notices.len(), 4);
    assert!(notices.iter().any(|n| n.board_id == "b1"));
    assert!(notices.iter().any(|n| n.board_id == "b3"));
}
