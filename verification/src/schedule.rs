//! The scheduler's decision logic: enumerating every (campus, college,
//! department, board) task, the bounded-concurrency admission state, and
//! merging per-task outcomes into the final record collection. The
//! outside work — fetching pages and awaiting them — is the caller's;
//! it hands fetched pages (or failures) back as plain values.

use vstd::prelude::*;

use crate::config::CleaningConfig;
use crate::config::CleaningView;
use crate::config::Config;
use crate::extract::board_ok;
use crate::extract::board_records;
use crate::extract::extract_board;
use crate::extract::row_record;
use crate::model::Campus;
use crate::model::CampusView;
use crate::model::CrawlTask;
use crate::model::CrawlTaskView;
use crate::model::DeptRefView;
use crate::model::Notice;
use crate::model::NoticeView;
use crate::model::BoardView;
use crate::model::all_departments_spec;
use crate::model::campuses_view;
use crate::model::dept_refs_view;
use crate::model::notices_view;
use crate::model::tasks_view;
use crate::scrape::row_count_of;

verus! {

/// The tasks contributed by one department reference: one per board, in
/// board order, each carrying the department's context.
pub open spec fn board_tasks(dr: DeptRefView) -> Seq<CrawlTaskView> {
    dr.dept.boards.map_values(
        |b: BoardView| CrawlTaskView {
            campus: dr.campus,
            college: dr.college,
            department_id: dr.dept.id,
            department_name: dr.dept.name,
            board: b,
        },
    )
}

/// The tasks of the first `k` department references, in order.
pub open spec fn ref_tasks_upto(refs: Seq<DeptRefView>, k: int) -> Seq<CrawlTaskView>
    decreases k,
{
    if k <= 0 || k > refs.len() {
        Seq::<CrawlTaskView>::empty()
    } else {
        ref_tasks_upto(refs, k - 1) + board_tasks(refs[k - 1])
    }
}

/// Every task of one campus: its department references in flattening
/// order, each expanded to its boards.
pub open spec fn campus_tasks(c: CampusView) -> Seq<CrawlTaskView> {
    ref_tasks_upto(all_departments_spec(c), all_departments_spec(c).len() as int)
}

/// The tasks of the first `k` campuses, in order.
pub open spec fn campuses_tasks_upto(cs: Seq<CampusView>, k: int) -> Seq<CrawlTaskView>
    decreases k,
{
    if k <= 0 || k > cs.len() {
        Seq::<CrawlTaskView>::empty()
    } else {
        campuses_tasks_upto(cs, k - 1) + campus_tasks(cs[k - 1])
    }
}

/// The complete task list of a crawl, in deterministic flattening
/// order: campus by campus, college departments then direct
/// departments, board by board.
pub open spec fn enumerate_tasks_spec(cs: Seq<CampusView>) -> Seq<CrawlTaskView> {
    campuses_tasks_upto(cs, cs.len() as int)
}

/// Flatten all campuses into the crawl's task list.
pub fn enumerate_tasks(campuses: &Vec<Campus>) -> (r: Vec<CrawlTask>)
    ensures
        tasks_view(r@) == enumerate_tasks_spec(campuses_view(campuses@)),
{
    let mut out: Vec<CrawlTask> = Vec::new();
    let ghost csv = campuses_view(campuses@);
    let mut ci: usize = 0;
    while ci < campuses.len()
        invariant
            ci <= campuses@.len(),
            csv == campuses_view(campuses@),
            tasks_view(out@) == campuses_tasks_upto(csv, ci as int),
        decreases campuses@.len() - ci,
    {
        let refs = campuses[ci].all_departments();
        let ghost refsv = dept_refs_view(refs@);
        let ghost campus_part = tasks_view(out@);
        proof {
            assert(csv[ci as int] == campuses@[ci as int]@);
            assert(refsv == all_departments_spec(csv[ci as int]));
        }
        let mut ri: usize = 0;
        while ri < refs.len()
            invariant
                ri <= refs@.len(),
                refsv == dept_refs_view(refs@),
                campus_part == campuses_tasks_upto(csv, ci as int),
                tasks_view(out@) == campus_part + ref_tasks_upto(refsv, ri as int),
            decreases refs@.len() - ri,
        {
            let dr = &refs[ri];
            let ghost drv = refsv[ri as int];
            proof {
                assert(drv == dr@);
            }
            let ghost ref_part = tasks_view(out@);
            let mut bi: usize = 0;
            while bi < dr.dept.boards.len()
                invariant
                    bi <= dr.dept.boards@.len(),
                    ri < refs@.len(),
                    dr == &refs@[ri as int],
                    drv == refsv[ri as int],
                    drv == dr@,
                    ref_part == campus_part + ref_tasks_upto(refsv, ri as int),
                    tasks_view(out@) == ref_part + board_tasks(drv).take(bi as int),
                decreases dr.dept.boards@.len() - bi,
            {
                let task = CrawlTask {
                    campus: dr.campus.clone(),
                    college: dr.college.clone(),
                    department_id: dr.dept.id.clone(),
                    department_name: dr.dept.name.clone(),
                    board: dr.dept.boards[bi].clone(),
                };
                proof {
                    assert(drv.dept.boards[bi as int] == dr.dept.boards@[bi as int]@);
                    assert(task@ == board_tasks(drv)[bi as int]);
                }
                let ghost prev = out@;
                out.push(task);
                proof {
                    assert(out@ == prev.push(task));
                    assert(board_tasks(drv).len() == dr.dept.boards@.len());
                    assert(board_tasks(drv).take(bi as int).len() == bi as int);
                    assert(board_tasks(drv).take(bi + 1).len() == bi + 1);
                    let target = ref_part + board_tasks(drv).take(bi + 1);
                    assert(tasks_view(prev).len() == ref_part.len() + bi);
                    assert(target.len() == tasks_view(out@).len());
                    assert(forall|j: int|
                        0 <= j < prev.len() ==> tasks_view(out@)[j] == tasks_view(prev)[j]);
                    assert(tasks_view(out@)[prev.len() as int] == task@);
                    assert forall|j: int| 0 <= j < target.len() implies tasks_view(out@)[j]
                        == target[j] by {
                        if j < ref_part.len() + bi {
                            assert(tasks_view(prev)[j] == (ref_part + board_tasks(drv).take(
                                bi as int,
                            ))[j]);
                            if ref_part.len() <= j {
                                assert(target[j] == board_tasks(drv).take(bi + 1)[j
                                    - ref_part.len()]);
                            }
                        } else {
                            assert(j == prev.len());
                        }
                    }
                    assert(tasks_view(out@) =~= target);
                }
                bi = bi + 1;
            }
            proof {
                assert(board_tasks(drv).take(dr.dept.boards@.len() as int) =~= board_tasks(drv));
                assert(tasks_view(out@) =~= campus_part + ref_tasks_upto(refsv, ri + 1));
            }
            ri = ri + 1;
        }
        proof {
            assert(ref_tasks_upto(refsv, refs@.len() as int) =~= campus_tasks(csv[ci as int]));
            assert(tasks_view(out@) =~= campuses_tasks_upto(csv, ci + 1));
        }
        ci = ci + 1;
    }
    out
}

/// Effective concurrency cap: a configured cap of zero is treated as
/// one, so at least one task may always be in flight.
pub fn effective_concurrency(configured: usize) -> (r: usize)
    ensures
        r == if configured == 0 {
            1usize
        } else {
            configured
        },
        r >= 1,
{
    if configured == 0 {
        1
    } else {
        configured
    }
}

/// The admission-control state of a crawl: how many tasks hold a
/// concurrency slot and how many have been handed out. The caller
/// performs the fetches; every start and finish goes through this
/// state, which never admits more than `cap` tasks at once.
pub struct SchedulerState {
    /// The effective concurrency cap; at least one.
    pub cap: usize,
    /// Tasks currently holding a slot.
    pub in_flight: usize,
    /// Index of the next task to hand out.
    pub next_task: usize,
    /// How many tasks there are in all.
    pub total: usize,
}

impl SchedulerState {
    /// The state invariant: the cap is at least one, at most `cap`
    /// tasks hold a slot, and no task beyond the total is handed out.
    pub open spec fn wf(&self) -> bool {
        1 <= self.cap && self.in_flight <= self.cap && self.next_task <= self.total
    }

    /// Start a crawl of `total` tasks under a configured cap; a cap of
    /// zero is treated as one.
    pub fn new(configured_cap: usize, total: usize) -> (r: Self)
        ensures
            r.wf(),
            r.cap == if configured_cap == 0 {
                1usize
            } else {
                configured_cap
            },
            r.in_flight == 0,
            r.next_task == 0,
            r.total == total,
    {
        SchedulerState { cap: effective_concurrency(configured_cap), in_flight: 0, next_task: 0, total }
    }

    /// Hand out the next task if a slot is free and tasks remain;
    /// the started task occupies one slot until `finish`.
    pub fn try_start(&mut self) -> (r: Option<usize>)
        requires
            old(self).wf(),
        ensures
            final(self).wf(),
            final(self).cap == old(self).cap,
            final(self).total == old(self).total,
            match r {
                Some(i) => old(self).in_flight < old(self).cap && old(self).next_task < old(
                    self,
                ).total && i == old(self).next_task && final(self).in_flight == old(self).in_flight
                    + 1 && final(self).next_task == old(self).next_task + 1,
                None => (old(self).in_flight == old(self).cap || old(self).next_task == old(
                    self,
                ).total) && *final(self) == *old(self),
            },
    {
        if self.in_flight < self.cap && self.next_task < self.total {
            let i = self.next_task;
            self.in_flight = self.in_flight + 1;
            self.next_task = self.next_task + 1;
            Some(i)
        } else {
            None
        }
    }

    /// Release the slot of a completed task (after any configured
    /// inter-task delay the caller applies).
    pub fn finish(&mut self)
        requires
            old(self).wf(),
            old(self).in_flight >= 1,
        ensures
            final(self).wf(),
            final(self).cap == old(self).cap,
            final(self).total == old(self).total,
            final(self).next_task == old(self).next_task,
            final(self).in_flight == old(self).in_flight - 1,
    {
        self.in_flight = self.in_flight - 1;
    }

    /// Whether every task has been handed out and has finished.
    pub fn all_done(&self) -> (r: bool)
        ensures
            r == (self.next_task == self.total && self.in_flight == 0),
    {
        self.next_task == self.total && self.in_flight == 0
    }
}

/// In every well-formed scheduler state at most `cap` tasks hold a
/// concurrency slot, and the cap is at least one — for any configured
/// cap, zero included. Every operation of `SchedulerState` preserves
/// well-formedness, so this bound holds throughout a crawl.
pub proof fn lemma_slots_never_exceed_cap(s: SchedulerState)
    requires
        s.wf(),
    ensures
        s.in_flight <= s.cap,
        1 <= s.cap,
{
}

/// The views of a list of fetched pages: the page text on success, the
/// reported cause on failure.
pub open spec fn page_views(s: Seq<Result<String, String>>) -> Seq<Result<Seq<char>, Seq<char>>> {
    s.map_values(
        |r: Result<String, String>|
            match r {
                Ok(h) => Ok::<Seq<char>, Seq<char>>(h@),
                Err(e) => Err::<Seq<char>, Seq<char>>(e@),
            },
    )
}

/// What one task contributes to the final collection: its board's
/// records when its page was fetched and the board extracts cleanly,
/// nothing on any failure.
pub open spec fn task_records(
    task: CrawlTaskView,
    page: Result<Seq<char>, Seq<char>>,
    rules: CleaningView,
) -> Seq<NoticeView> {
    match page {
        Ok(html) => if board_ok(task.board) {
            board_records(html, task, rules)
        } else {
            Seq::<NoticeView>::empty()
        },
        Err(_) => Seq::<NoticeView>::empty(),
    }
}

/// The contributions of the first `n` tasks, in task order.
pub open spec fn crawl_upto(
    tasks: Seq<CrawlTaskView>,
    pages: Seq<Result<Seq<char>, Seq<char>>>,
    rules: CleaningView,
    n: int,
) -> Seq<NoticeView>
    decreases n,
{
    if n <= 0 {
        Seq::<NoticeView>::empty()
    } else {
        crawl_upto(tasks, pages, rules, n - 1) + task_records(tasks[n - 1], pages[n - 1], rules)
    }
}

/// The whole crawl's record collection, given every task's fetched page
/// or fetch failure.
pub open spec fn crawl_spec(
    tasks: Seq<CrawlTaskView>,
    pages: Seq<Result<Seq<char>, Seq<char>>>,
    rules: CleaningView,
) -> Seq<NoticeView> {
    crawl_upto(tasks, pages, rules, tasks.len() as int)
}

/// Merge the outcomes of all tasks: each task whose page was fetched is
/// extracted, successful extractions contribute their records in task
/// order, and every failure — fetch, selector or URL — contributes
/// nothing and disturbs no other task.
pub fn crawl_all_fetched(
    tasks: &Vec<CrawlTask>,
    pages: &Vec<Result<String, String>>,
    rules: &CleaningConfig,
) -> (r: Vec<Notice>)
    requires
        tasks@.len() == pages@.len(),
    ensures
        notices_view(r@) == crawl_spec(tasks_view(tasks@), page_views(pages@), rules@),
{
    let ghost tsv = tasks_view(tasks@);
    let ghost pgv = page_views(pages@);
    let mut out: Vec<Notice> = Vec::new();
    let mut i: usize = 0;
    while i < tasks.len()
        invariant
            i <= tasks@.len(),
            tasks@.len() == pages@.len(),
            tsv == tasks_view(tasks@),
            pgv == page_views(pages@),
            notices_view(out@) == crawl_upto(tsv, pgv, rules@, i as int),
        decreases tasks@.len() - i,
    {
        let ghost contribution = task_records(tsv[i as int], pgv[i as int], rules@);
        match &pages[i] {
            Ok(html) => {
                match extract_board(html.as_str(), &tasks[i], rules) {
                    Ok(mut v) => {
                        proof {
                            assert(notices_view(v@) == contribution);
                        }
                        let ghost prev = out@;
                        let ghost vv = v@;
                        out.append(&mut v);
                        proof {
                            assert(out@ == prev + vv);
                            assert forall|j: int| 0 <= j < out@.len() implies notices_view(out@)[j]
                                == (notices_view(prev) + notices_view(vv))[j] by {
                                if j < prev.len() {
                                    assert(out@[j] == prev[j]);
                                } else {
                                    assert(out@[j] == vv[j - prev.len()]);
                                }
                            }
                            assert(notices_view(out@) =~= notices_view(prev) + notices_view(vv));
                            assert(notices_view(out@) =~= crawl_upto(tsv, pgv, rules@, i + 1));
                        }
                    },
                    Err(_) => {
                        proof {
                            assert(contribution =~= Seq::<NoticeView>::empty());
                            assert(notices_view(out@) + contribution =~= notices_view(out@));
                            assert(notices_view(out@) =~= crawl_upto(tsv, pgv, rules@, i + 1));
                        }
                    },
                }
            },
            Err(_) => {
                proof {
                    assert(contribution =~= Seq::<NoticeView>::empty());
                    assert(notices_view(out@) + contribution =~= notices_view(out@));
                    assert(notices_view(out@) =~= crawl_upto(tsv, pgv, rules@, i + 1));
                }
            },
        }
        i = i + 1;
    }
    out
}

/// The crawling engine's verified front: it owns the configuration and
/// drives enumeration and merging. The fetching itself is injected from
/// outside as the list of fetched pages, one per task.
pub struct Crawler {
    /// The run's configuration.
    pub config: Config,
}

impl Crawler {
    /// A crawler over the given configuration.
    pub fn new(config: Config) -> (r: Self)
        ensures
            r.config == config,
    {
        Crawler { config }
    }

    /// The task list of a crawl over these campuses.
    pub fn tasks(&self, campuses: &Vec<Campus>) -> (r: Vec<CrawlTask>)
        ensures
            tasks_view(r@) == enumerate_tasks_spec(campuses_view(campuses@)),
    {
        enumerate_tasks(campuses)
    }

    /// Merge every task's fetched page into the final record collection
    /// under this crawler's cleaning rules.
    pub fn collect_notices(&self, tasks: &Vec<CrawlTask>, pages: &Vec<Result<String, String>>) -> (r:
        Vec<Notice>)
        requires
            tasks@.len() == pages@.len(),
        ensures
            notices_view(r@) == crawl_spec(
                tasks_view(tasks@),
                page_views(pages@),
                self.config.cleaning@,
            ),
    {
        crawl_all_fetched(tasks, pages, &self.config.cleaning)
    }
}

/// How many of the first `n` rows of a board produce a record.
pub open spec fn produced_rows_upto(
    html: Seq<char>,
    task: CrawlTaskView,
    rules: CleaningView,
    n: int,
) -> int
    decreases n,
{
    if n <= 0 {
        0
    } else {
        produced_rows_upto(html, task, rules, n - 1) + if row_record(html, task, rules, n - 1)
            is Some {
            1int
        } else {
            0int
        }
    }
}

/// How many rows matched by the board's row selector produce a
/// non-empty-title record.
pub open spec fn board_produced_rows(
    html: Seq<char>,
    task: CrawlTaskView,
    rules: CleaningView,
) -> int {
    produced_rows_upto(html, task, rules, row_count_of(html, task.board.row_selector))
}

proof fn lemma_records_len_is_produced(
    html: Seq<char>,
    task: CrawlTaskView,
    rules: CleaningView,
    n: int,
)
    ensures
        crate::extract::records_upto(html, task, rules, n).len() == produced_rows_upto(
            html,
            task,
            rules,
            n,
        ),
    decreases n,
{
    if n > 0 {
        lemma_records_len_is_produced(html, task, rules, n - 1);
    }
}

/// The sum, over the first `n` tasks, of the rows that produce a record
/// on each task's fetched page.
pub open spec fn sum_produced_upto(
    tasks: Seq<CrawlTaskView>,
    pages: Seq<Result<Seq<char>, Seq<char>>>,
    rules: CleaningView,
    n: int,
) -> int
    decreases n,
{
    if n <= 0 {
        0
    } else {
        sum_produced_upto(tasks, pages, rules, n - 1) + board_produced_rows(
            pages[n - 1]->Ok_0,
            tasks[n - 1],
            rules,
        )
    }
}

/// With zero failures — every page fetched and every board extracting
/// cleanly — the size of the crawl's record collection is exactly the
/// sum, over the boards, of the rows matched by each board's row
/// selector that produced a non-empty-title record.
pub proof fn lemma_crawl_len_is_sum_of_produced_rows(
    tasks: Seq<CrawlTaskView>,
    pages: Seq<Result<Seq<char>, Seq<char>>>,
    rules: CleaningView,
)
    requires
        tasks.len() == pages.len(),
        forall|i: int| 0 <= i < pages.len() ==> (#[trigger] pages[i]) is Ok,
        forall|i: int| 0 <= i < tasks.len() ==> board_ok((#[trigger] tasks[i]).board),
    ensures
        crawl_spec(tasks, pages, rules).len() == sum_produced_upto(
            tasks,
            pages,
            rules,
            tasks.len() as int,
        ),
{
    lemma_crawl_len_upto(tasks, pages, rules, tasks.len() as int);
}

proof fn lemma_crawl_len_upto(
    tasks: Seq<CrawlTaskView>,
    pages: Seq<Result<Seq<char>, Seq<char>>>,
    rules: CleaningView,
    n: int,
)
    requires
        n <= tasks.len(),
        tasks.len() == pages.len(),
        forall|i: int| 0 <= i < pages.len() ==> (#[trigger] pages[i]) is Ok,
        forall|i: int| 0 <= i < tasks.len() ==> board_ok((#[trigger] tasks[i]).board),
    ensures
        crawl_upto(tasks, pages, rules, n).len() == sum_produced_upto(tasks, pages, rules, n),
    decreases n,
{
    if n > 0 {
        lemma_crawl_len_upto(tasks, pages, rules, n - 1);
        lemma_records_len_is_produced(
            pages[n - 1]->Ok_0,
            tasks[n - 1],
            rules,
            row_count_of(pages[n - 1]->Ok_0, tasks[n - 1].board.row_selector),
        );
    }
}

proof fn lemma_crawl_upto_prefix(
    tasks_a: Seq<CrawlTaskView>,
    pages_a: Seq<Result<Seq<char>, Seq<char>>>,
    tasks_b: Seq<CrawlTaskView>,
    pages_b: Seq<Result<Seq<char>, Seq<char>>>,
    rules: CleaningView,
    n: int,
)
    requires
        forall|j: int| 0 <= j < n ==> tasks_a[j] == tasks_b[j] && pages_a[j] == pages_b[j],
    ensures
        crawl_upto(tasks_a, pages_a, rules, n) == crawl_upto(tasks_b, pages_b, rules, n),
    decreases n,
{
    if n > 0 {
        lemma_crawl_upto_prefix(tasks_a, pages_a, tasks_b, pages_b, rules, n - 1);
    }
}

/// One failing board — a page that could not be fetched, or a board
/// that does not extract — contributes nothing and changes nothing
/// else: the crawl's collection equals that of the same run without
/// that board.
pub proof fn lemma_failed_board_isolated(
    tasks: Seq<CrawlTaskView>,
    pages: Seq<Result<Seq<char>, Seq<char>>>,
    rules: CleaningView,
    j: int,
)
    requires
        tasks.len() == pages.len(),
        0 <= j < tasks.len(),
        pages[j] is Err || !board_ok(tasks[j].board),
    ensures
        crawl_spec(tasks, pages, rules) == crawl_spec(tasks.remove(j), pages.remove(j), rules),
    decreases tasks.len(),
{
    let n = tasks.len() as int;
    let rt = tasks.remove(j);
    let rp = pages.remove(j);
    if j == n - 1 {
        assert(task_records(tasks[j], pages[j], rules) =~= Seq::<NoticeView>::empty());
        assert(crawl_spec(tasks, pages, rules) =~= crawl_upto(tasks, pages, rules, n - 1));
        lemma_crawl_upto_prefix(tasks, pages, rt, rp, rules, n - 1);
    } else {
        let head_tasks = tasks.take(n - 1);
        let head_pages = pages.take(n - 1);
        lemma_crawl_upto_prefix(tasks, pages, head_tasks, head_pages, rules, n - 1);
        lemma_failed_board_isolated(head_tasks, head_pages, rules, j);
        assert(head_tasks.remove(j) =~= rt.take(n - 2));
        assert(head_pages.remove(j) =~= rp.take(n - 2));
        lemma_crawl_upto_prefix(rt.take(n - 2), rp.take(n - 2), rt, rp, rules, n - 2);
        assert(rt[n - 2] == tasks[n - 1]);
        assert(rp[n - 2] == pages[n - 1]);
        assert(crawl_spec(tasks, pages, rules) == crawl_upto(tasks, pages, rules, n - 1)
            + task_records(tasks[n - 1], pages[n - 1], rules));
        assert(crawl_spec(rt, rp, rules) == crawl_upto(rt, rp, rules, n - 2) + task_records(
            rt[n - 2],
            rp[n - 2],
            rules,
        ));
    }
}

} // verus!
