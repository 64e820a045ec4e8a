//! The site model: the Campus / College / Department / Board hierarchy
//! that describes what to crawl, the extracted Notice record, and the
//! flattening query that lists every department with its college
//! context.

use vstd::prelude::*;

use crate::text::format_notice_spec;

verus! {

/// Configuration for a single notice board: where to fetch and how to
/// select rows, titles, dates and links out of the fetched page.
#[derive(Debug)]
pub struct Board {
    pub id: String,
    pub name: String,
    pub url: String,
    pub row_selector: String,
    pub title_selector: String,
    pub date_selector: String,
    /// Attribute the link is read from; `href` when not configured.
    pub attr_name: String,
    /// Selector for the link element; the title element when absent.
    pub link_selector: Option<String>,
}

/// The mathematical content of a `Board`: each selector string as a
/// sequence of characters.
pub struct BoardView {
    pub id: Seq<char>,
    pub name: Seq<char>,
    pub url: Seq<char>,
    pub row_selector: Seq<char>,
    pub title_selector: Seq<char>,
    pub date_selector: Seq<char>,
    pub attr_name: Seq<char>,
    pub link_selector: Option<Seq<char>>,
}

impl View for Board {
    type V = BoardView;

    open spec fn view(&self) -> BoardView {
        BoardView {
            id: self.id@,
            name: self.name@,
            url: self.url@,
            row_selector: self.row_selector@,
            title_selector: self.title_selector@,
            date_selector: self.date_selector@,
            attr_name: self.attr_name@,
            link_selector: match self.link_selector {
                Some(s) => Some(s@),
                None => None,
            },
        }
    }
}

impl Clone for Board {
    fn clone(&self) -> (res: Self)
        ensures
            res@ == self@,
    {
        Board {
            id: self.id.clone(),
            name: self.name.clone(),
            url: self.url.clone(),
            row_selector: self.row_selector.clone(),
            title_selector: self.title_selector.clone(),
            date_selector: self.date_selector.clone(),
            attr_name: self.attr_name.clone(),
            link_selector: match &self.link_selector {
                Some(s) => Some(s.clone()),
                None => None,
            },
        }
    }
}

impl Board {
    /// The default attribute a link is read from.
    pub fn default_attr() -> (r: String)
        ensures
            r@ == "href"@,
    {
        String::from_str("href")
    }
}

/// A department with its notice boards.
#[derive(Debug)]
pub struct Department {
    pub id: String,
    pub name: String,
    pub boards: Vec<Board>,
}

/// The views of a list of boards.
pub open spec fn boards_view(s: Seq<Board>) -> Seq<BoardView> {
    s.map_values(|b: Board| b@)
}

/// The mathematical content of a `Department`.
pub struct DepartmentView {
    pub id: Seq<char>,
    pub name: Seq<char>,
    pub boards: Seq<BoardView>,
}

impl View for Department {
    type V = DepartmentView;

    open spec fn view(&self) -> DepartmentView {
        DepartmentView {
            id: self.id@,
            name: self.name@,
            boards: boards_view(self.boards@),
        }
    }
}

impl Clone for Department {
    fn clone(&self) -> (res: Self)
        ensures
            res@ == self@,
    {
        let mut boards: Vec<Board> = Vec::new();
        let mut i: usize = 0;
        while i < self.boards.len()
            invariant
                i <= self.boards@.len(),
                boards_view(boards@) == boards_view(self.boards@).take(i as int),
            decreases self.boards@.len() - i,
        {
            let b = self.boards[i].clone();
            proof {
                assert(b@ == boards_view(self.boards@)[i as int]);
            }
            let ghost prev = boards@;
            boards.push(b);
            proof {
                assert(boards@ == prev.push(b));
                assert(boards_view(prev).len() == i as int);
                assert(prev.len() == i as int);
                assert(boards@.len() == i + 1);
                assert(boards_view(boards@).len() == i + 1);
                assert(forall|j: int| 0 <= j < i ==> boards_view(boards@)[j] == boards_view(prev)[j]);
                assert(boards_view(boards@)[i as int] == b@);
                assert(boards_view(boards@) =~= boards_view(self.boards@).take(i + 1));
            }
            i = i + 1;
        }
        proof {
            assert(boards_view(self.boards@).take(self.boards@.len() as int) =~= boards_view(
                self.boards@,
            ));
        }
        Department { id: self.id.clone(), name: self.name.clone(), boards }
    }
}

/// A college containing multiple departments.
#[derive(Debug)]
pub struct College {
    pub name: String,
    pub departments: Vec<Department>,
}

/// The views of a list of departments.
pub open spec fn depts_view(s: Seq<Department>) -> Seq<DepartmentView> {
    s.map_values(|d: Department| d@)
}

/// The mathematical content of a `College`.
pub struct CollegeView {
    pub name: Seq<char>,
    pub departments: Seq<DepartmentView>,
}

impl View for College {
    type V = CollegeView;

    open spec fn view(&self) -> CollegeView {
        CollegeView {
            name: self.name@,
            departments: depts_view(self.departments@),
        }
    }
}

/// A campus containing colleges and/or directly-owned departments.
#[derive(Debug)]
pub struct Campus {
    pub campus: String,
    pub colleges: Vec<College>,
    pub departments: Vec<Department>,
}

/// The views of a list of colleges.
pub open spec fn colleges_view(s: Seq<College>) -> Seq<CollegeView> {
    s.map_values(|c: College| c@)
}

/// The mathematical content of a `Campus`.
pub struct CampusView {
    pub campus: Seq<char>,
    pub colleges: Seq<CollegeView>,
    pub departments: Seq<DepartmentView>,
}

impl View for Campus {
    type V = CampusView;

    open spec fn view(&self) -> CampusView {
        CampusView {
            campus: self.campus@,
            colleges: colleges_view(self.colleges@),
            departments: depts_view(self.departments@),
        }
    }
}

/// A department together with its campus and college context; the
/// college name is empty for a department owned directly by the campus.
#[derive(Debug)]
pub struct DepartmentRef {
    pub campus: String,
    pub college: String,
    pub dept: Department,
}

/// The mathematical content of a `DepartmentRef`.
pub struct DeptRefView {
    pub campus: Seq<char>,
    pub college: Seq<char>,
    pub dept: DepartmentView,
}

impl View for DepartmentRef {
    type V = DeptRefView;

    open spec fn view(&self) -> DeptRefView {
        DeptRefView { campus: self.campus@, college: self.college@, dept: self.dept@ }
    }
}

/// The department references contributed by one college: each of its
/// departments, paired with the campus and the college name.
pub open spec fn college_dept_refs(campus: Seq<char>, col: CollegeView) -> Seq<DeptRefView> {
    col.departments.map_values(
        |d: DepartmentView| DeptRefView { campus: campus, college: col.name, dept: d },
    )
}

/// The department references of the first `k` colleges, in order.
pub open spec fn college_refs_upto(
    campus: Seq<char>,
    colleges: Seq<CollegeView>,
    k: int,
) -> Seq<DeptRefView>
    decreases k,
{
    if k <= 0 || k > colleges.len() {
        Seq::<DeptRefView>::empty()
    } else {
        college_refs_upto(campus, colleges, k - 1) + college_dept_refs(campus, colleges[k - 1])
    }
}

/// The references of a campus's directly-owned departments: the college
/// context is the empty string.
pub open spec fn direct_refs(campus: Seq<char>, depts: Seq<DepartmentView>) -> Seq<DeptRefView> {
    depts.map_values(
        |d: DepartmentView| DeptRefView {
            campus: campus,
            college: Seq::<char>::empty(),
            dept: d,
        },
    )
}

/// Every department reachable from a campus with its college context:
/// the colleges' departments in order, then the direct departments.
pub open spec fn all_departments_spec(c: CampusView) -> Seq<DeptRefView> {
    college_refs_upto(c.campus, c.colleges, c.colleges.len() as int) + direct_refs(
        c.campus,
        c.departments,
    )
}

/// The views of a list of department references.
pub open spec fn dept_refs_view(s: Seq<DepartmentRef>) -> Seq<DeptRefView> {
    s.map_values(|dr: DepartmentRef| dr@)
}

impl Campus {
    /// List every department of this campus: the colleges' departments
    /// first, each paired with its college name, then the directly-owned
    /// departments with an empty college name.
    pub fn all_departments(&self) -> (r: Vec<DepartmentRef>)
        ensures
            dept_refs_view(r@) == all_departments_spec(self@),
    {
        let mut result: Vec<DepartmentRef> = Vec::new();
        let mut ci: usize = 0;
        while ci < self.colleges.len()
            invariant
                ci <= self.colleges@.len(),
                dept_refs_view(result@) == college_refs_upto(
                    self@.campus,
                    self@.colleges,
                    ci as int,
                ),
            decreases self.colleges@.len() - ci,
        {
            let col = &self.colleges[ci];
            let ghost before = dept_refs_view(result@);
            let ghost colv = self@.colleges[ci as int];
            let mut di: usize = 0;
            while di < col.departments.len()
                invariant
                    di <= col.departments@.len(),
                    colv == self@.colleges[ci as int],
                    ci < self.colleges@.len(),
                    col == &self.colleges[ci as int],
                    before == college_refs_upto(self@.campus, self@.colleges, ci as int),
                    dept_refs_view(result@) == before + college_dept_refs(
                        self@.campus,
                        colv,
                    ).take(di as int),
                decreases col.departments@.len() - di,
            {
                let dr = DepartmentRef {
                    campus: self.campus.clone(),
                    college: col.name.clone(),
                    dept: col.departments[di].clone(),
                };
                proof {
                    assert(colv == col@);
                    assert(colv.departments[di as int] == col.departments@[di as int]@);
                    assert(dr@ == college_dept_refs(self@.campus, colv)[di as int]);
                }
                let ghost prev = result@;
                result.push(dr);
                proof {
                    assert(result@ == prev.push(dr));
                    assert(dept_refs_view(prev).len() == before.len() + di);
                    assert(dept_refs_view(result@).len() == before.len() + di + 1);
                    assert(forall|j: int|
                        0 <= j < prev.len() ==> dept_refs_view(result@)[j] == dept_refs_view(
                            prev,
                        )[j]);
                    assert(dept_refs_view(result@)[prev.len() as int] == dr@);
                    let target = before + college_dept_refs(self@.campus, colv).take(di + 1);
                    assert(college_dept_refs(self@.campus, colv).take(di + 1).len() == di + 1);
                    assert(target.len() == dept_refs_view(result@).len());
                    assert forall|j: int| 0 <= j < target.len() implies dept_refs_view(result@)[j]
                        == target[j] by {
                        if j < before.len() {
                            assert(dept_refs_view(prev)[j] == (before + college_dept_refs(
                                self@.campus,
                                colv,
                            ).take(di as int))[j]);
                        } else if j < before.len() + di {
                            assert(dept_refs_view(prev)[j] == (before + college_dept_refs(
                                self@.campus,
                                colv,
                            ).take(di as int))[j]);
                            assert(target[j] == college_dept_refs(self@.campus, colv).take(
                                di + 1,
                            )[j - before.len()]);
                        } else {
                            assert(j == prev.len());
                        }
                    }
                    assert(dept_refs_view(result@) =~= target);
                }
                di = di + 1;
            }
            proof {
                assert(college_dept_refs(self@.campus, colv).take(
                    col.departments@.len() as int,
                ) =~= college_dept_refs(self@.campus, colv));
                assert(dept_refs_view(result@) =~= college_refs_upto(
                    self@.campus,
                    self@.colleges,
                    ci + 1,
                ));
            }
            ci = ci + 1;
        }
        let ghost colleges_part = dept_refs_view(result@);
        let mut di: usize = 0;
        while di < self.departments.len()
            invariant
                di <= self.departments@.len(),
                colleges_part == college_refs_upto(
                    self@.campus,
                    self@.colleges,
                    self@.colleges.len() as int,
                ),
                dept_refs_view(result@) == colleges_part + direct_refs(
                    self@.campus,
                    self@.departments,
                ).take(di as int),
            decreases self.departments@.len() - di,
        {
            let dr = DepartmentRef {
                campus: self.campus.clone(),
                college: String::new(),
                dept: self.departments[di].clone(),
            };
            proof {
                assert(self@.departments[di as int] == self.departments@[di as int]@);
                assert(dr@ == direct_refs(self@.campus, self@.departments)[di as int]);
            }
            let ghost prev = result@;
            result.push(dr);
            proof {
                assert(result@ == prev.push(dr));
                assert(dept_refs_view(prev).len() == colleges_part.len() + di);
                assert(dept_refs_view(result@).len() == colleges_part.len() + di + 1);
                assert(forall|j: int|
                    0 <= j < prev.len() ==> dept_refs_view(result@)[j] == dept_refs_view(prev)[j]);
                assert(dept_refs_view(result@)[prev.len() as int] == dr@);
                let target = colleges_part + direct_refs(self@.campus, self@.departments).take(
                    di + 1,
                );
                assert(direct_refs(self@.campus, self@.departments).take(di + 1).len() == di + 1);
                assert(target.len() == dept_refs_view(result@).len());
                assert forall|j: int| 0 <= j < target.len() implies dept_refs_view(result@)[j]
                    == target[j] by {
                    if j < colleges_part.len() {
                        assert(dept_refs_view(prev)[j] == (colleges_part + direct_refs(
                            self@.campus,
                            self@.departments,
                        ).take(di as int))[j]);
                    } else if j < colleges_part.len() + di {
                        assert(dept_refs_view(prev)[j] == (colleges_part + direct_refs(
                            self@.campus,
                            self@.departments,
                        ).take(di as int))[j]);
                        assert(target[j] == direct_refs(self@.campus, self@.departments).take(
                            di + 1,
                        )[j - colleges_part.len()]);
                    } else {
                        assert(j == prev.len());
                    }
                }
                assert(dept_refs_view(result@) =~= target);
            }
            di = di + 1;
        }
        proof {
            assert(direct_refs(self@.campus, self@.departments).take(
                self.departments@.len() as int,
            ) =~= direct_refs(self@.campus, self@.departments));
        }
        result
    }
}

/// A notice extracted from a board: its organizational context and the
/// cleaned title, cleaned date and resolved link.
#[derive(Debug)]
pub struct Notice {
    pub campus: String,
    pub college: String,
    pub department_id: String,
    pub department_name: String,
    pub board_id: String,
    pub board_name: String,
    pub title: String,
    pub date: String,
    pub link: String,
}

/// The mathematical content of a `Notice`.
pub struct NoticeView {
    pub campus: Seq<char>,
    pub college: Seq<char>,
    pub department_id: Seq<char>,
    pub department_name: Seq<char>,
    pub board_id: Seq<char>,
    pub board_name: Seq<char>,
    pub title: Seq<char>,
    pub date: Seq<char>,
    pub link: Seq<char>,
}

impl View for Notice {
    type V = NoticeView;

    open spec fn view(&self) -> NoticeView {
        NoticeView {
            campus: self.campus@,
            college: self.college@,
            department_id: self.department_id@,
            department_name: self.department_name@,
            board_id: self.board_id@,
            board_name: self.board_name@,
            title: self.title@,
            date: self.date@,
            link: self.link@,
        }
    }
}

impl Clone for Notice {
    fn clone(&self) -> (res: Self)
        ensures
            res@ == self@,
    {
        Notice {
            campus: self.campus.clone(),
            college: self.college.clone(),
            department_id: self.department_id.clone(),
            department_name: self.department_name.clone(),
            board_id: self.board_id.clone(),
            board_name: self.board_name.clone(),
            title: self.title.clone(),
            date: self.date.clone(),
            link: self.link.clone(),
        }
    }
}

impl Notice {
    /// Format this notice for display using a template with the five
    /// placeholders of `format_notice_spec`.
    pub fn format(&self, template: &str) -> (r: String)
        ensures
            r@ == format_notice_spec(
                template@,
                self.department_name@,
                self.board_name@,
                self.title@,
                self.date@,
                self.link@,
            ),
    {
        crate::text::format_notice(
            template,
            self.department_name.as_str(),
            self.board_name.as_str(),
            self.title.as_str(),
            self.date.as_str(),
            self.link.as_str(),
        )
    }
}

/// The views of a list of notices.
pub open spec fn notices_view(s: Seq<Notice>) -> Seq<NoticeView> {
    s.map_values(|n: Notice| n@)
}

/// One unit of crawling work: a board together with the campus, college
/// and department context its records will carry.
#[derive(Debug)]
pub struct CrawlTask {
    pub campus: String,
    pub college: String,
    pub department_id: String,
    pub department_name: String,
    pub board: Board,
}

/// The mathematical content of a `CrawlTask`.
pub struct CrawlTaskView {
    pub campus: Seq<char>,
    pub college: Seq<char>,
    pub department_id: Seq<char>,
    pub department_name: Seq<char>,
    pub board: BoardView,
}

impl View for CrawlTask {
    type V = CrawlTaskView;

    open spec fn view(&self) -> CrawlTaskView {
        CrawlTaskView {
            campus: self.campus@,
            college: self.college@,
            department_id: self.department_id@,
            department_name: self.department_name@,
            board: self.board@,
        }
    }
}

impl Clone for CrawlTask {
    fn clone(&self) -> (res: Self)
        ensures
            res@ == self@,
    {
        CrawlTask {
            campus: self.campus.clone(),
            college: self.college.clone(),
            department_id: self.department_id.clone(),
            department_name: self.department_name.clone(),
            board: self.board.clone(),
        }
    }
}

/// The views of a list of crawl tasks.
pub open spec fn tasks_view(s: Seq<CrawlTask>) -> Seq<CrawlTaskView> {
    s.map_values(|t: CrawlTask| t@)
}

/// The views of a list of campuses.
pub open spec fn campuses_view(s: Seq<Campus>) -> Seq<CampusView> {
    s.map_values(|c: Campus| c@)
}

} // verus!
