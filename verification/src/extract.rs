//! The per-board extraction pipeline: compile the board's selectors,
//! check its base URL, then walk the matched rows in document order and
//! turn each into at most one cleaned record.

use vstd::prelude::*;

use crate::config::CleaningConfig;
use crate::config::CleaningView;
use crate::error::CrawlerError;
use crate::model::BoardView;
use crate::model::CrawlTask;
use crate::model::CrawlTaskView;
use crate::model::Notice;
use crate::model::NoticeView;
use crate::model::notices_view;
use crate::scrape::row_count_of;
use crate::scrape::row_first_attr;
use crate::scrape::row_first_text;
use crate::scrape::selector_ok;
use crate::text::clean_spec;
use crate::urlres::url_resolve_spec;
use crate::urlres::url_well_formed_spec;

verus! {

/// The raw title text of row `i`: the text under the row's first match
/// of the title selector.
pub open spec fn row_title(html: Seq<char>, b: BoardView, i: int) -> Option<Seq<char>> {
    row_first_text(html, b.row_selector, i, b.title_selector)
}

/// The raw date text of row `i`.
pub open spec fn row_date(html: Seq<char>, b: BoardView, i: int) -> Option<Seq<char>> {
    row_first_text(html, b.row_selector, i, b.date_selector)
}

/// The configured attribute read off the row's title element; empty
/// when the element or the attribute is missing.
pub open spec fn title_attr_or_empty(html: Seq<char>, b: BoardView, i: int) -> Seq<char> {
    match row_first_attr(html, b.row_selector, i, b.title_selector, b.attr_name) {
        Some(Some(v)) => v,
        Some(None) => Seq::<char>::empty(),
        None => Seq::<char>::empty(),
    }
}

/// The raw link value of row `i`: the configured attribute of the first
/// match of the link selector when one is configured (falling back to
/// the title element when that selector matches nothing), else of the
/// title element itself; a missing attribute reads as empty.
pub open spec fn row_raw_link(html: Seq<char>, b: BoardView, i: int) -> Seq<char> {
    match b.link_selector {
        Some(ls) => match row_first_attr(html, b.row_selector, i, ls, b.attr_name) {
            Some(Some(v)) => v,
            Some(None) => Seq::<char>::empty(),
            None => title_attr_or_empty(html, b, i),
        },
        None => title_attr_or_empty(html, b, i),
    }
}

/// The record produced by row `i`, if any: a row without a title match
/// or a date match yields nothing, and so does a row whose cleaned
/// title is empty.
pub open spec fn row_record(
    html: Seq<char>,
    task: CrawlTaskView,
    rules: CleaningView,
    i: int,
) -> Option<NoticeView> {
    match row_title(html, task.board, i) {
        None => None,
        Some(t) => match row_date(html, task.board, i) {
            None => None,
            Some(d) => {
                let title = clean_spec(
                    t,
                    rules.title_remove_patterns,
                    Seq::<(Seq<char>, Seq<char>)>::empty(),
                );
                if title.len() == 0 {
                    None
                } else {
                    Some(
                        NoticeView {
                            campus: task.campus,
                            college: task.college,
                            department_id: task.department_id,
                            department_name: task.department_name,
                            board_id: task.board.id,
                            board_name: task.board.name,
                            title: title,
                            date: clean_spec(
                                d,
                                rules.date_remove_patterns,
                                rules.date_replacements,
                            ),
                            link: url_resolve_spec(task.board.url, row_raw_link(html, task.board, i)),
                        },
                    )
                }
            },
        },
    }
}

/// The records of the first `n` rows, in document order.
pub open spec fn records_upto(
    html: Seq<char>,
    task: CrawlTaskView,
    rules: CleaningView,
    n: int,
) -> Seq<NoticeView>
    decreases n,
{
    if n <= 0 {
        Seq::<NoticeView>::empty()
    } else {
        records_upto(html, task, rules, n - 1) + match row_record(html, task, rules, n - 1) {
            Some(nv) => seq![nv],
            None => Seq::<NoticeView>::empty(),
        }
    }
}

/// Every record a successful extraction of this board yields.
pub open spec fn board_records(
    html: Seq<char>,
    task: CrawlTaskView,
    rules: CleaningView,
) -> Seq<NoticeView> {
    records_upto(html, task, rules, row_count_of(html, task.board.row_selector))
}

/// All of a board's configured selectors compile.
pub open spec fn board_selectors_ok(b: BoardView) -> bool {
    selector_ok(b.row_selector) && selector_ok(b.title_selector) && selector_ok(b.date_selector)
        && match b.link_selector {
        Some(ls) => selector_ok(ls),
        None => true,
    }
}

/// A board can be extracted from: its selectors compile and its URL can
/// serve as a resolution base.
pub open spec fn board_ok(b: BoardView) -> bool {
    board_selectors_ok(b) && url_well_formed_spec(b.url)
}

/// The first selector of the board, in the order row, title, date,
/// link, that does not compile.
pub open spec fn first_bad_selector(b: BoardView) -> Seq<char> {
    if !selector_ok(b.row_selector) {
        b.row_selector
    } else if !selector_ok(b.title_selector) {
        b.title_selector
    } else if !selector_ok(b.date_selector) {
        b.date_selector
    } else {
        match b.link_selector {
            Some(ls) => ls,
            None => Seq::<char>::empty(),
        }
    }
}

/// For every board and every row: a row with a matched title selector
/// but no date match yields no record.
pub proof fn lemma_row_without_date_yields_no_record(
    html: Seq<char>,
    task: CrawlTaskView,
    rules: CleaningView,
    i: int,
)
    requires
        row_date(html, task.board, i) is None,
    ensures
        row_record(html, task, rules, i) is None,
{
}

/// A row whose cleaned title is empty yields no record, whatever its
/// date and link hold.
pub proof fn lemma_empty_title_yields_no_record(
    html: Seq<char>,
    task: CrawlTaskView,
    rules: CleaningView,
    i: int,
)
    requires
        row_title(html, task.board, i) matches Some(t) ==> clean_spec(
            t,
            rules.title_remove_patterns,
            Seq::<(Seq<char>, Seq<char>)>::empty(),
        ).len() == 0,
    ensures
        row_record(html, task, rules, i) is None,
{
}

fn title_attr(html: &str, task: &CrawlTask, i: usize) -> (r: String)
    requires
        selector_ok(task.board.row_selector@),
        selector_ok(task.board.title_selector@),
    ensures
        r@ == title_attr_or_empty(html@, task.board@, i as int),
{
    match crate::scrape::first_attr_in_row(
        html,
        task.board.row_selector.as_str(),
        i,
        task.board.title_selector.as_str(),
        task.board.attr_name.as_str(),
    ) {
        Some(Some(v)) => v,
        Some(None) => String::new(),
        None => String::new(),
    }
}

fn raw_link(html: &str, task: &CrawlTask, i: usize) -> (r: String)
    requires
        board_selectors_ok(task.board@),
    ensures
        r@ == row_raw_link(html@, task.board@, i as int),
{
    match &task.board.link_selector {
        Some(ls) => {
            match crate::scrape::first_attr_in_row(
                html,
                task.board.row_selector.as_str(),
                i,
                ls.as_str(),
                task.board.attr_name.as_str(),
            ) {
                Some(Some(v)) => v,
                Some(None) => String::new(),
                None => title_attr(html, task, i),
            }
        },
        None => title_attr(html, task, i),
    }
}

/// Extract every record of one board from a fetched page. Fails exactly
/// when a configured selector does not compile (naming the first such
/// selector) or when the board's URL cannot serve as a resolution base;
/// on success returns the records of the matched rows in document
/// order, one per row with a title match, a date match and a non-empty
/// cleaned title.
pub fn extract_board(html: &str, task: &CrawlTask, rules: &CleaningConfig) -> (r: Result<
    Vec<Notice>,
    CrawlerError,
>)
    ensures
        r is Ok <==> board_ok(task.board@),
        r matches Ok(v) ==> notices_view(v@) == board_records(html@, task@, rules@),
        r matches Err(e) ==> match e {
            CrawlerError::Selector { selector, message } => !board_selectors_ok(task.board@)
                && selector@ == first_bad_selector(task.board@),
            CrawlerError::Url(u) => board_selectors_ok(task.board@) && !url_well_formed_spec(
                task.board.url@,
            ) && u@ == task.board.url@,
            _ => false,
        },
{
    let b = &task.board;
    if let Some(m) = crate::scrape::check_selector(b.row_selector.as_str()) {
        return Err(CrawlerError::Selector { selector: b.row_selector.clone(), message: m });
    }
    if let Some(m) = crate::scrape::check_selector(b.title_selector.as_str()) {
        return Err(CrawlerError::Selector { selector: b.title_selector.clone(), message: m });
    }
    if let Some(m) = crate::scrape::check_selector(b.date_selector.as_str()) {
        return Err(CrawlerError::Selector { selector: b.date_selector.clone(), message: m });
    }
    match &b.link_selector {
        Some(ls) => {
            if let Some(m) = crate::scrape::check_selector(ls.as_str()) {
                return Err(CrawlerError::Selector { selector: ls.clone(), message: m });
            }
        },
        None => {},
    }
    if !crate::urlres::url_well_formed(b.url.as_str()) {
        return Err(CrawlerError::Url(b.url.clone()));
    }
    let count = crate::scrape::count_rows(html, b.row_selector.as_str());
    let mut out: Vec<Notice> = Vec::new();
    let mut i: usize = 0;
    while i < count
        invariant
            i <= count,
            board_ok(task.board@),
            count as int == row_count_of(html@, task.board@.row_selector),
            notices_view(out@) == records_upto(html@, task@, rules@, i as int),
        decreases count - i,
    {
        let b = &task.board;
        let t_opt = crate::scrape::first_text_in_row(
            html,
            b.row_selector.as_str(),
            i,
            b.title_selector.as_str(),
        );
        let d_opt = crate::scrape::first_text_in_row(
            html,
            b.row_selector.as_str(),
            i,
            b.date_selector.as_str(),
        );
        let ghost rec = row_record(html@, task@, rules@, i as int);
        match t_opt {
            Some(t) => {
                match d_opt {
                    Some(d) => {
                        let title = crate::text::clean_title(t.as_str(), rules);
                        if !title.as_str().is_empty() {
                            let raw = raw_link(html, task, i);
                            let link = crate::urlres::resolve(b.url.as_str(), raw.as_str());
                            let date = crate::text::clean_date(d.as_str(), rules);
                            let notice = Notice {
                                campus: task.campus.clone(),
                                college: task.college.clone(),
                                department_id: task.department_id.clone(),
                                department_name: task.department_name.clone(),
                                board_id: b.id.clone(),
                                board_name: b.name.clone(),
                                title,
                                date,
                                link,
                            };
                            proof {
                                assert(rec == Some(notice@));
                            }
                            let ghost prev = out@;
                            out.push(notice);
                            proof {
                                assert(out@ == prev.push(notice));
                                assert(notices_view(out@).len() == notices_view(prev).len() + 1);
                                assert(forall|j: int|
                                    0 <= j < prev.len() ==> notices_view(out@)[j] == notices_view(
                                        prev,
                                    )[j]);
                                assert(notices_view(out@)[prev.len() as int] == notice@);
                                assert(notices_view(out@) =~= records_upto(
                                    html@,
                                    task@,
                                    rules@,
                                    i + 1,
                                ));
                            }
                        } else {
                            assert(rec is None);
                            assert(notices_view(out@) =~= records_upto(html@, task@, rules@, i + 1));
                        }
                    },
                    None => {
                        assert(rec is None);
                        assert(notices_view(out@) =~= records_upto(html@, task@, rules@, i + 1));
                    },
                }
            },
            None => {
                assert(rec is None);
                assert(notices_view(out@) =~= records_upto(html@, task@, rules@, i + 1));
            },
        }
        i = i + 1;
    }
    Ok(out)
}

} // verus!
