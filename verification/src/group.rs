//! Regrouping the flat record collection for persistence: a three-level
//! structure keyed by campus, then department name, then board name,
//! preserving the order in which records were merged within each leaf,
//! plus the sanitization of a board name into a file name.

use vstd::prelude::*;

use crate::model::Notice;
use crate::model::NoticeView;
use crate::model::notices_view;

verus! {

/// The records of one board, under the board's name.
#[derive(Debug)]
pub struct BoardGroup {
    pub board_name: String,
    pub notices: Vec<Notice>,
}

/// The mathematical content of a `BoardGroup`.
pub struct BoardGroupView {
    pub board_name: Seq<char>,
    pub notices: Seq<NoticeView>,
}

impl View for BoardGroup {
    type V = BoardGroupView;

    open spec fn view(&self) -> BoardGroupView {
        BoardGroupView { board_name: self.board_name@, notices: notices_view(self.notices@) }
    }
}

/// The boards of one department, under the department's name.
#[derive(Debug)]
pub struct DeptGroup {
    pub department_name: String,
    pub boards: Vec<BoardGroup>,
}

/// The mathematical content of a `DeptGroup`.
pub struct DeptGroupView {
    pub department_name: Seq<char>,
    pub boards: Seq<BoardGroupView>,
}

/// The views of a list of board groups.
pub open spec fn board_groups_view(s: Seq<BoardGroup>) -> Seq<BoardGroupView> {
    s.map_values(|g: BoardGroup| g@)
}

impl View for DeptGroup {
    type V = DeptGroupView;

    open spec fn view(&self) -> DeptGroupView {
        DeptGroupView {
            department_name: self.department_name@,
            boards: board_groups_view(self.boards@),
        }
    }
}

/// The departments of one campus, under the campus name.
#[derive(Debug)]
pub struct CampusGroup {
    pub campus: String,
    pub departments: Vec<DeptGroup>,
}

/// The mathematical content of a `CampusGroup`.
pub struct CampusGroupView {
    pub campus: Seq<char>,
    pub departments: Seq<DeptGroupView>,
}

/// The views of a list of department groups.
pub open spec fn dept_groups_view(s: Seq<DeptGroup>) -> Seq<DeptGroupView> {
    s.map_values(|g: DeptGroup| g@)
}

impl View for CampusGroup {
    type V = CampusGroupView;

    open spec fn view(&self) -> CampusGroupView {
        CampusGroupView { campus: self.campus@, departments: dept_groups_view(self.departments@) }
    }
}

/// The views of a list of campus groups.
pub open spec fn campus_groups_view(s: Seq<CampusGroup>) -> Seq<CampusGroupView> {
    s.map_values(|g: CampusGroup| g@)
}

/// Insert one record into a board-group list: appended to the group
/// with its board's name, or into a fresh group at the end.
pub open spec fn insert_board(bs: Seq<BoardGroupView>, n: NoticeView) -> Seq<BoardGroupView>
    decreases bs.len(),
{
    if bs.len() == 0 {
        seq![BoardGroupView { board_name: n.board_name, notices: seq![n] }]
    } else if bs[0].board_name == n.board_name {
        seq![BoardGroupView { board_name: bs[0].board_name, notices: bs[0].notices.push(n) }]
            + bs.drop_first()
    } else {
        seq![bs[0]] + insert_board(bs.drop_first(), n)
    }
}

/// Insert one record into a department-group list.
pub open spec fn insert_dept(ds: Seq<DeptGroupView>, n: NoticeView) -> Seq<DeptGroupView>
    decreases ds.len(),
{
    if ds.len() == 0 {
        seq![
            DeptGroupView {
                department_name: n.department_name,
                boards: insert_board(Seq::<BoardGroupView>::empty(), n),
            },
        ]
    } else if ds[0].department_name == n.department_name {
        seq![
            DeptGroupView {
                department_name: ds[0].department_name,
                boards: insert_board(ds[0].boards, n),
            },
        ] + ds.drop_first()
    } else {
        seq![ds[0]] + insert_dept(ds.drop_first(), n)
    }
}

/// Insert one record into a campus-group list.
pub open spec fn insert_campus(gs: Seq<CampusGroupView>, n: NoticeView) -> Seq<CampusGroupView>
    decreases gs.len(),
{
    if gs.len() == 0 {
        seq![
            CampusGroupView {
                campus: n.campus,
                departments: insert_dept(Seq::<DeptGroupView>::empty(), n),
            },
        ]
    } else if gs[0].campus == n.campus {
        seq![
            CampusGroupView { campus: gs[0].campus, departments: insert_dept(gs[0].departments, n) },
        ] + gs.drop_first()
    } else {
        seq![gs[0]] + insert_campus(gs.drop_first(), n)
    }
}

/// The grouping of the first `k` records, in merge order.
pub open spec fn group_upto(notices: Seq<NoticeView>, k: int) -> Seq<CampusGroupView>
    decreases k,
{
    if k <= 0 {
        Seq::<CampusGroupView>::empty()
    } else {
        insert_campus(group_upto(notices, k - 1), notices[k - 1])
    }
}

/// The grouped form of the whole collection: campus by campus in first
/// appearance order, likewise departments and boards, each leaf keeping
/// the records' merge order.
pub open spec fn group_spec(notices: Seq<NoticeView>) -> Seq<CampusGroupView> {
    group_upto(notices, notices.len() as int)
}

proof fn lemma_insert_board_found(bs: Seq<BoardGroupView>, n: NoticeView, i: int)
    requires
        0 <= i < bs.len(),
        forall|j: int| 0 <= j < i ==> (#[trigger] bs[j]).board_name != n.board_name,
        bs[i].board_name == n.board_name,
    ensures
        insert_board(bs, n) == bs.update(
            i,
            BoardGroupView { board_name: bs[i].board_name, notices: bs[i].notices.push(n) },
        ),
    decreases i,
{
    if i == 0 {
        assert(insert_board(bs, n) =~= bs.update(
            0,
            BoardGroupView { board_name: bs[0].board_name, notices: bs[0].notices.push(n) },
        ));
    } else {
        assert(forall|j: int|
            0 <= j < i - 1 ==> (#[trigger] bs.drop_first()[j]).board_name != n.board_name);
        lemma_insert_board_found(bs.drop_first(), n, i - 1);
        assert(seq![bs[0]] + bs.drop_first().update(
            i - 1,
            BoardGroupView { board_name: bs[i].board_name, notices: bs[i].notices.push(n) },
        ) =~= bs.update(
            i,
            BoardGroupView { board_name: bs[i].board_name, notices: bs[i].notices.push(n) },
        ));
    }
}

proof fn lemma_insert_board_missing(bs: Seq<BoardGroupView>, n: NoticeView)
    requires
        forall|j: int| 0 <= j < bs.len() ==> (#[trigger] bs[j]).board_name != n.board_name,
    ensures
        insert_board(bs, n) == bs.push(BoardGroupView { board_name: n.board_name, notices: seq![n] }),
    decreases bs.len(),
{
    if bs.len() == 0 {
        assert(insert_board(bs, n) =~= bs.push(
            BoardGroupView { board_name: n.board_name, notices: seq![n] },
        ));
    } else {
        lemma_insert_board_missing(bs.drop_first(), n);
        assert(seq![bs[0]] + bs.drop_first().push(
            BoardGroupView { board_name: n.board_name, notices: seq![n] },
        ) =~= bs.push(BoardGroupView { board_name: n.board_name, notices: seq![n] }));
    }
}

proof fn lemma_insert_dept_found(ds: Seq<DeptGroupView>, n: NoticeView, i: int)
    requires
        0 <= i < ds.len(),
        forall|j: int| 0 <= j < i ==> (#[trigger] ds[j]).department_name != n.department_name,
        ds[i].department_name == n.department_name,
    ensures
        insert_dept(ds, n) == ds.update(
            i,
            DeptGroupView {
                department_name: ds[i].department_name,
                boards: insert_board(ds[i].boards, n),
            },
        ),
    decreases i,
{
    if i == 0 {
        assert(insert_dept(ds, n) =~= ds.update(
            0,
            DeptGroupView {
                department_name: ds[0].department_name,
                boards: insert_board(ds[0].boards, n),
            },
        ));
    } else {
        assert(forall|j: int|
            0 <= j < i - 1 ==> (#[trigger] ds.drop_first()[j]).department_name
                != n.department_name);
        lemma_insert_dept_found(ds.drop_first(), n, i - 1);
        assert(seq![ds[0]] + ds.drop_first().update(
            i - 1,
            DeptGroupView {
                department_name: ds[i].department_name,
                boards: insert_board(ds[i].boards, n),
            },
        ) =~= ds.update(
            i,
            DeptGroupView {
                department_name: ds[i].department_name,
                boards: insert_board(ds[i].boards, n),
            },
        ));
    }
}

proof fn lemma_insert_dept_missing(ds: Seq<DeptGroupView>, n: NoticeView)
    requires
        forall|j: int| 0 <= j < ds.len() ==> (#[trigger] ds[j]).department_name != n.department_name,
    ensures
        insert_dept(ds, n) == ds.push(
            DeptGroupView {
                department_name: n.department_name,
                boards: insert_board(Seq::<BoardGroupView>::empty(), n),
            },
        ),
    decreases ds.len(),
{
    if ds.len() == 0 {
        assert(insert_dept(ds, n) =~= ds.push(
            DeptGroupView {
                department_name: n.department_name,
                boards: insert_board(Seq::<BoardGroupView>::empty(), n),
            },
        ));
    } else {
        lemma_insert_dept_missing(ds.drop_first(), n);
        assert(seq![ds[0]] + ds.drop_first().push(
            DeptGroupView {
                department_name: n.department_name,
                boards: insert_board(Seq::<BoardGroupView>::empty(), n),
            },
        ) =~= ds.push(
            DeptGroupView {
                department_name: n.department_name,
                boards: insert_board(Seq::<BoardGroupView>::empty(), n),
            },
        ));
    }
}

proof fn lemma_insert_campus_found(gs: Seq<CampusGroupView>, n: NoticeView, i: int)
    requires
        0 <= i < gs.len(),
        forall|j: int| 0 <= j < i ==> (#[trigger] gs[j]).campus != n.campus,
        gs[i].campus == n.campus,
    ensures
        insert_campus(gs, n) == gs.update(
            i,
            CampusGroupView { campus: gs[i].campus, departments: insert_dept(gs[i].departments, n) },
        ),
    decreases i,
{
    if i == 0 {
        assert(insert_campus(gs, n) =~= gs.update(
            0,
            CampusGroupView { campus: gs[0].campus, departments: insert_dept(gs[0].departments, n) },
        ));
    } else {
        assert(forall|j: int|
            0 <= j < i - 1 ==> (#[trigger] gs.drop_first()[j]).campus != n.campus);
        lemma_insert_campus_found(gs.drop_first(), n, i - 1);
        assert(seq![gs[0]] + gs.drop_first().update(
            i - 1,
            CampusGroupView { campus: gs[i].campus, departments: insert_dept(gs[i].departments, n) },
        ) =~= gs.update(
            i,
            CampusGroupView { campus: gs[i].campus, departments: insert_dept(gs[i].departments, n) },
        ));
    }
}

proof fn lemma_insert_campus_missing(gs: Seq<CampusGroupView>, n: NoticeView)
    requires
        forall|j: int| 0 <= j < gs.len() ==> (#[trigger] gs[j]).campus != n.campus,
    ensures
        insert_campus(gs, n) == gs.push(
            CampusGroupView {
                campus: n.campus,
                departments: insert_dept(Seq::<DeptGroupView>::empty(), n),
            },
        ),
    decreases gs.len(),
{
    if gs.len() == 0 {
        assert(insert_campus(gs, n) =~= gs.push(
            CampusGroupView {
                campus: n.campus,
                departments: insert_dept(Seq::<DeptGroupView>::empty(), n),
            },
        ));
    } else {
        lemma_insert_campus_missing(gs.drop_first(), n);
        assert(seq![gs[0]] + gs.drop_first().push(
            CampusGroupView {
                campus: n.campus,
                departments: insert_dept(Seq::<DeptGroupView>::empty(), n),
            },
        ) =~= gs.push(
            CampusGroupView {
                campus: n.campus,
                departments: insert_dept(Seq::<DeptGroupView>::empty(), n),
            },
        ));
    }
}

fn insert_into_boards(boards: &mut Vec<BoardGroup>, n: Notice)
    ensures
        board_groups_view(final(boards)@) == insert_board(board_groups_view(old(boards)@), n@),
{
    let ghost orig = boards@;
    let ghost nv = n@;
    let mut i: usize = 0;
    while i < boards.len()
        invariant
            i <= boards@.len(),
            boards@ == orig,
            orig == old(boards)@,
            nv == n@,
            forall|j: int|
                0 <= j < i ==> (#[trigger] board_groups_view(orig)[j]).board_name != nv.board_name,
        decreases boards@.len() - i,
    {
        if boards[i].board_name == n.board_name {
            let mut g = boards.remove(i);
            let ghost gv = g@;
            g.notices.push(n);
            proof {
                assert(notices_view(g.notices@) =~= gv.notices.push(nv));
            }
            boards.insert(i, g);
            proof {
                lemma_insert_board_found(board_groups_view(orig), nv, i as int);
                assert(board_groups_view(boards@) =~= board_groups_view(orig).update(
                    i as int,
                    BoardGroupView {
                        board_name: board_groups_view(orig)[i as int].board_name,
                        notices: board_groups_view(orig)[i as int].notices.push(nv),
                    },
                ));
            }
            return ;
        }
        i = i + 1;
    }
    let mut fresh: Vec<Notice> = Vec::new();
    fresh.push(n);
    let name = fresh[0].board_name.clone();
    proof {
        assert(notices_view(fresh@) =~= seq![nv]);
    }
    boards.push(BoardGroup { board_name: name, notices: fresh });
    proof {
        lemma_insert_board_missing(board_groups_view(orig), nv);
        assert(board_groups_view(boards@) =~= board_groups_view(orig).push(
            BoardGroupView { board_name: nv.board_name, notices: seq![nv] },
        ));
    }
}

fn insert_into_depts(depts: &mut Vec<DeptGroup>, n: Notice)
    ensures
        dept_groups_view(final(depts)@) == insert_dept(dept_groups_view(old(depts)@), n@),
{
    let ghost orig = depts@;
    let ghost nv = n@;
    let mut i: usize = 0;
    while i < depts.len()
        invariant
            i <= depts@.len(),
            depts@ == orig,
            orig == old(depts)@,
            nv == n@,
            forall|j: int|
                0 <= j < i ==> (#[trigger] dept_groups_view(orig)[j]).department_name
                    != nv.department_name,
        decreases depts@.len() - i,
    {
        if depts[i].department_name == n.department_name {
            let mut g = depts.remove(i);
            let ghost gv = g@;
            insert_into_boards(&mut g.boards, n);
            depts.insert(i, g);
            proof {
                lemma_insert_dept_found(dept_groups_view(orig), nv, i as int);
                assert(dept_groups_view(depts@) =~= dept_groups_view(orig).update(
                    i as int,
                    DeptGroupView {
                        department_name: gv.department_name,
                        boards: insert_board(gv.boards, nv),
                    },
                ));
            }
            return ;
        }
        i = i + 1;
    }
    let name = n.department_name.clone();
    let mut boards: Vec<BoardGroup> = Vec::new();
    insert_into_boards(&mut boards, n);
    proof {
        assert(board_groups_view(Seq::<BoardGroup>::empty()) =~= Seq::<BoardGroupView>::empty());
    }
    depts.push(DeptGroup { department_name: name, boards });
    proof {
        lemma_insert_dept_missing(dept_groups_view(orig), nv);
        assert(dept_groups_view(depts@) =~= dept_groups_view(orig).push(
            DeptGroupView {
                department_name: nv.department_name,
                boards: insert_board(Seq::<BoardGroupView>::empty(), nv),
            },
        ));
    }
}

fn insert_into_campuses(groups: &mut Vec<CampusGroup>, n: Notice)
    ensures
        campus_groups_view(final(groups)@) == insert_campus(campus_groups_view(old(groups)@), n@),
{
    let ghost orig = groups@;
    let ghost nv = n@;
    let mut i: usize = 0;
    while i < groups.len()
        invariant
            i <= groups@.len(),
            groups@ == orig,
            orig == old(groups)@,
            nv == n@,
            forall|j: int|
                0 <= j < i ==> (#[trigger] campus_groups_view(orig)[j]).campus != nv.campus,
        decreases groups@.len() - i,
    {
        if groups[i].campus == n.campus {
            let mut g = groups.remove(i);
            let ghost gv = g@;
            insert_into_depts(&mut g.departments, n);
            groups.insert(i, g);
            proof {
                lemma_insert_campus_found(campus_groups_view(orig), nv, i as int);
                assert(campus_groups_view(groups@) =~= campus_groups_view(orig).update(
                    i as int,
                    CampusGroupView {
                        campus: gv.campus,
                        departments: insert_dept(gv.departments, nv),
                    },
                ));
            }
            return ;
        }
        i = i + 1;
    }
    let name = n.campus.clone();
    let mut depts: Vec<DeptGroup> = Vec::new();
    insert_into_depts(&mut depts, n);
    proof {
        assert(dept_groups_view(Seq::<DeptGroup>::empty()) =~= Seq::<DeptGroupView>::empty());
    }
    groups.push(CampusGroup { campus: name, departments: depts });
    proof {
        lemma_insert_campus_missing(campus_groups_view(orig), nv);
        assert(campus_groups_view(groups@) =~= campus_groups_view(orig).push(
            CampusGroupView {
                campus: nv.campus,
                departments: insert_dept(Seq::<DeptGroupView>::empty(), nv),
            },
        ));
    }
}

/// Regroup the flat record collection by campus, department name and
/// board name, first-appearance order at every level, keeping each
/// leaf's records in merge order. No record is filtered or deduplicated.
pub fn group_notices(notices: &Vec<Notice>) -> (r: Vec<CampusGroup>)
    ensures
        campus_groups_view(r@) == group_spec(notices_view(notices@)),
{
    let mut out: Vec<CampusGroup> = Vec::new();
    let mut i: usize = 0;
    while i < notices.len()
        invariant
            i <= notices@.len(),
            campus_groups_view(out@) == group_upto(notices_view(notices@), i as int),
        decreases notices@.len() - i,
    {
        let n = notices[i].clone();
        proof {
            assert(n@ == notices_view(notices@)[i as int]);
        }
        insert_into_campuses(&mut out, n);
        i = i + 1;
    }
    out
}

/// The records of the group named `b` in a board-group list; empty when
/// no group carries that name.
pub open spec fn leaf_board(bs: Seq<BoardGroupView>, b: Seq<char>) -> Seq<NoticeView>
    decreases bs.len(),
{
    if bs.len() == 0 {
        Seq::<NoticeView>::empty()
    } else if bs[0].board_name == b {
        bs[0].notices
    } else {
        leaf_board(bs.drop_first(), b)
    }
}

/// The records under department `d` and board `b` in a department-group
/// list.
pub open spec fn leaf_dept(ds: Seq<DeptGroupView>, d: Seq<char>, b: Seq<char>) -> Seq<NoticeView>
    decreases ds.len(),
{
    if ds.len() == 0 {
        Seq::<NoticeView>::empty()
    } else if ds[0].department_name == d {
        leaf_board(ds[0].boards, b)
    } else {
        leaf_dept(ds.drop_first(), d, b)
    }
}

/// The records under campus `c`, department `d` and board `b` in a
/// grouped structure.
pub open spec fn leaf_records(
    gs: Seq<CampusGroupView>,
    c: Seq<char>,
    d: Seq<char>,
    b: Seq<char>,
) -> Seq<NoticeView>
    decreases gs.len(),
{
    if gs.len() == 0 {
        Seq::<NoticeView>::empty()
    } else if gs[0].campus == c {
        leaf_dept(gs[0].departments, d, b)
    } else {
        leaf_records(gs.drop_first(), c, d, b)
    }
}

/// A record carries exactly the keys of one leaf.
pub open spec fn matches_keys(n: NoticeView, c: Seq<char>, d: Seq<char>, b: Seq<char>) -> bool {
    n.campus == c && n.department_name == d && n.board_name == b
}

proof fn lemma_insert_board_leaf(bs: Seq<BoardGroupView>, n: NoticeView, b: Seq<char>)
    ensures
        leaf_board(insert_board(bs, n), b) == if n.board_name == b {
            leaf_board(bs, b).push(n)
        } else {
            leaf_board(bs, b)
        },
    decreases bs.len(),
{
    let r = insert_board(bs, n);
    if bs.len() == 0 {
        assert(r[0] == BoardGroupView { board_name: n.board_name, notices: seq![n] });
        assert(r.drop_first() =~= Seq::<BoardGroupView>::empty());
        if n.board_name == b {
            assert(leaf_board(r, b) == r[0].notices);
            assert(seq![n] =~= Seq::<NoticeView>::empty().push(n));
        } else {
            assert(leaf_board(r, b) == leaf_board(r.drop_first(), b));
            assert(leaf_board(Seq::<BoardGroupView>::empty(), b) == Seq::<NoticeView>::empty());
        }
    } else if bs[0].board_name == n.board_name {
        assert(r[0] == BoardGroupView {
            board_name: bs[0].board_name,
            notices: bs[0].notices.push(n),
        });
        assert(r.drop_first() =~= bs.drop_first());
        if bs[0].board_name == b {
            assert(leaf_board(r, b) == r[0].notices);
            assert(leaf_board(bs, b) == bs[0].notices);
        } else {
            assert(leaf_board(r, b) == leaf_board(bs.drop_first(), b));
            assert(leaf_board(bs, b) == leaf_board(bs.drop_first(), b));
        }
    } else {
        assert(r[0] == bs[0]);
        assert(r.drop_first() =~= insert_board(bs.drop_first(), n));
        lemma_insert_board_leaf(bs.drop_first(), n, b);
        if bs[0].board_name == b {
            assert(leaf_board(r, b) == r[0].notices);
            assert(leaf_board(bs, b) == bs[0].notices);
        } else {
            assert(leaf_board(r, b) == leaf_board(insert_board(bs.drop_first(), n), b));
            assert(leaf_board(bs, b) == leaf_board(bs.drop_first(), b));
        }
    }
}

proof fn lemma_insert_dept_leaf(ds: Seq<DeptGroupView>, n: NoticeView, d: Seq<char>, b: Seq<char>)
    ensures
        leaf_dept(insert_dept(ds, n), d, b) == if n.department_name == d && n.board_name == b {
            leaf_dept(ds, d, b).push(n)
        } else {
            leaf_dept(ds, d, b)
        },
    decreases ds.len(),
{
    let r = insert_dept(ds, n);
    if ds.len() == 0 {
        assert(r[0] == DeptGroupView {
            department_name: n.department_name,
            boards: insert_board(Seq::<BoardGroupView>::empty(), n),
        });
        assert(r.drop_first() =~= Seq::<DeptGroupView>::empty());
        lemma_insert_board_leaf(Seq::<BoardGroupView>::empty(), n, b);
        assert(leaf_board(Seq::<BoardGroupView>::empty(), b) == Seq::<NoticeView>::empty());
        assert(leaf_dept(ds, d, b) == Seq::<NoticeView>::empty());
        if n.department_name == d {
            assert(leaf_dept(r, d, b) == leaf_board(r[0].boards, b));
        } else {
            assert(leaf_dept(r, d, b) == leaf_dept(r.drop_first(), d, b));
            assert(leaf_dept(Seq::<DeptGroupView>::empty(), d, b) == Seq::<NoticeView>::empty());
        }
    } else if ds[0].department_name == n.department_name {
        assert(r[0] == DeptGroupView {
            department_name: ds[0].department_name,
            boards: insert_board(ds[0].boards, n),
        });
        assert(r.drop_first() =~= ds.drop_first());
        lemma_insert_board_leaf(ds[0].boards, n, b);
        if ds[0].department_name == d {
            assert(leaf_dept(r, d, b) == leaf_board(r[0].boards, b));
            assert(leaf_dept(ds, d, b) == leaf_board(ds[0].boards, b));
        } else {
            assert(leaf_dept(r, d, b) == leaf_dept(ds.drop_first(), d, b));
            assert(leaf_dept(ds, d, b) == leaf_dept(ds.drop_first(), d, b));
        }
    } else {
        assert(r[0] == ds[0]);
        assert(r.drop_first() =~= insert_dept(ds.drop_first(), n));
        lemma_insert_dept_leaf(ds.drop_first(), n, d, b);
        if ds[0].department_name == d {
            assert(leaf_dept(r, d, b) == leaf_board(r[0].boards, b));
            assert(leaf_dept(ds, d, b) == leaf_board(ds[0].boards, b));
        } else {
            assert(leaf_dept(r, d, b) == leaf_dept(insert_dept(ds.drop_first(), n), d, b));
            assert(leaf_dept(ds, d, b) == leaf_dept(ds.drop_first(), d, b));
        }
    }
}

proof fn lemma_insert_campus_leaf(
    gs: Seq<CampusGroupView>,
    n: NoticeView,
    c: Seq<char>,
    d: Seq<char>,
    b: Seq<char>,
)
    ensures
        leaf_records(insert_campus(gs, n), c, d, b) == if matches_keys(n, c, d, b) {
            leaf_records(gs, c, d, b).push(n)
        } else {
            leaf_records(gs, c, d, b)
        },
    decreases gs.len(),
{
    let r = insert_campus(gs, n);
    if gs.len() == 0 {
        assert(r[0] == CampusGroupView {
            campus: n.campus,
            departments: insert_dept(Seq::<DeptGroupView>::empty(), n),
        });
        assert(r.drop_first() =~= Seq::<CampusGroupView>::empty());
        lemma_insert_dept_leaf(Seq::<DeptGroupView>::empty(), n, d, b);
        assert(leaf_dept(Seq::<DeptGroupView>::empty(), d, b) == Seq::<NoticeView>::empty());
        assert(leaf_records(gs, c, d, b) == Seq::<NoticeView>::empty());
        if n.campus == c {
            assert(leaf_records(r, c, d, b) == leaf_dept(r[0].departments, d, b));
        } else {
            assert(leaf_records(r, c, d, b) == leaf_records(r.drop_first(), c, d, b));
            assert(leaf_records(Seq::<CampusGroupView>::empty(), c, d, b)
                == Seq::<NoticeView>::empty());
        }
    } else if gs[0].campus == n.campus {
        assert(r[0] == CampusGroupView {
            campus: gs[0].campus,
            departments: insert_dept(gs[0].departments, n),
        });
        assert(r.drop_first() =~= gs.drop_first());
        lemma_insert_dept_leaf(gs[0].departments, n, d, b);
        if gs[0].campus == c {
            assert(leaf_records(r, c, d, b) == leaf_dept(r[0].departments, d, b));
            assert(leaf_records(gs, c, d, b) == leaf_dept(gs[0].departments, d, b));
        } else {
            assert(leaf_records(r, c, d, b) == leaf_records(gs.drop_first(), c, d, b));
            assert(leaf_records(gs, c, d, b) == leaf_records(gs.drop_first(), c, d, b));
        }
    } else {
        assert(r[0] == gs[0]);
        assert(r.drop_first() =~= insert_campus(gs.drop_first(), n));
        lemma_insert_campus_leaf(gs.drop_first(), n, c, d, b);
        if gs[0].campus == c {
            assert(leaf_records(r, c, d, b) == leaf_dept(r[0].departments, d, b));
            assert(leaf_records(gs, c, d, b) == leaf_dept(gs[0].departments, d, b));
        } else {
            assert(leaf_records(r, c, d, b) == leaf_records(insert_campus(gs.drop_first(), n), c, d, b));
            assert(leaf_records(gs, c, d, b) == leaf_records(gs.drop_first(), c, d, b));
        }
    }
}

proof fn lemma_leaf_upto(notices: Seq<NoticeView>, c: Seq<char>, d: Seq<char>, b: Seq<char>, k: int)
    requires
        0 <= k <= notices.len(),
    ensures
        leaf_records(group_upto(notices, k), c, d, b) == notices.take(k).filter(
            |n: NoticeView| matches_keys(n, c, d, b),
        ),
    decreases k,
{
    reveal_with_fuel(Seq::<NoticeView>::filter, 2);
    let pred = |n: NoticeView| matches_keys(n, c, d, b);
    if k == 0 {
        assert(notices.take(0) =~= Seq::<NoticeView>::empty());
        assert(Seq::<NoticeView>::empty().filter(pred) =~= Seq::<NoticeView>::empty());
    } else {
        lemma_leaf_upto(notices, c, d, b, k - 1);
        lemma_insert_campus_leaf(group_upto(notices, k - 1), notices[k - 1], c, d, b);
        assert(notices.take(k).drop_last() =~= notices.take(k - 1));
        assert(notices.take(k).last() == notices[k - 1]);
        assert(notices.take(k).filter(pred) == if pred(notices[k - 1]) {
            notices.take(k - 1).filter(pred).push(notices[k - 1])
        } else {
            notices.take(k - 1).filter(pred)
        });
    }
}

/// Pure regrouping: for every campus, department and board, the leaf of
/// the grouped structure holds exactly the input records carrying those
/// three keys, in their merge order — nothing filtered, nothing added.
pub proof fn lemma_leaf_is_filter(
    notices: Seq<NoticeView>,
    c: Seq<char>,
    d: Seq<char>,
    b: Seq<char>,
)
    ensures
        leaf_records(group_spec(notices), c, d, b) == notices.filter(
            |n: NoticeView| matches_keys(n, c, d, b),
        ),
{
    lemma_leaf_upto(notices, c, d, b, notices.len() as int);
    assert(notices.take(notices.len() as int) =~= notices);
    assert(notices.take(notices.len() as int).filter(|n: NoticeView| matches_keys(n, c, d, b))
        == notices.filter(|n: NoticeView| matches_keys(n, c, d, b)));
}

/// How many records a board-group list holds in all.
pub open spec fn board_record_count(bs: Seq<BoardGroupView>) -> int
    decreases bs.len(),
{
    if bs.len() == 0 {
        0
    } else {
        bs[0].notices.len() + board_record_count(bs.drop_first())
    }
}

/// How many records a department-group list holds in all.
pub open spec fn dept_record_count(ds: Seq<DeptGroupView>) -> int
    decreases ds.len(),
{
    if ds.len() == 0 {
        0
    } else {
        board_record_count(ds[0].boards) + dept_record_count(ds.drop_first())
    }
}

/// How many records a campus-group list holds in all.
pub open spec fn campus_record_count(gs: Seq<CampusGroupView>) -> int
    decreases gs.len(),
{
    if gs.len() == 0 {
        0
    } else {
        dept_record_count(gs[0].departments) + campus_record_count(gs.drop_first())
    }
}

proof fn lemma_insert_board_count(bs: Seq<BoardGroupView>, n: NoticeView)
    ensures
        board_record_count(insert_board(bs, n)) == board_record_count(bs) + 1,
    decreases bs.len(),
{
    if bs.len() == 0 {
        let one = insert_board(bs, n);
        assert(one[0] == BoardGroupView { board_name: n.board_name, notices: seq![n] });
        assert(one[0].notices.len() == 1);
        assert(one.drop_first() =~= Seq::<BoardGroupView>::empty());
        assert(board_record_count(one) == one[0].notices.len() + board_record_count(
            one.drop_first(),
        ));
    } else if bs[0].board_name == n.board_name {
        let r = insert_board(bs, n);
        assert(r[0] == BoardGroupView {
            board_name: bs[0].board_name,
            notices: bs[0].notices.push(n),
        });
        assert(r[0].notices.len() == bs[0].notices.len() + 1);
        assert(r.drop_first() =~= bs.drop_first());
        assert(board_record_count(r) == r[0].notices.len() + board_record_count(r.drop_first()));
    } else {
        lemma_insert_board_count(bs.drop_first(), n);
        let r = insert_board(bs, n);
        assert(r[0] == bs[0]);
        assert(r.drop_first() =~= insert_board(bs.drop_first(), n));
        assert(board_record_count(r) == r[0].notices.len() + board_record_count(r.drop_first()));
    }
}

proof fn lemma_insert_dept_count(ds: Seq<DeptGroupView>, n: NoticeView)
    ensures
        dept_record_count(insert_dept(ds, n)) == dept_record_count(ds) + 1,
    decreases ds.len(),
{
    if ds.len() == 0 {
        lemma_insert_board_count(Seq::<BoardGroupView>::empty(), n);
        assert(board_record_count(Seq::<BoardGroupView>::empty()) == 0);
        let one = insert_dept(ds, n);
        assert(one[0] == DeptGroupView {
            department_name: n.department_name,
            boards: insert_board(Seq::<BoardGroupView>::empty(), n),
        });
        assert(one.drop_first() =~= Seq::<DeptGroupView>::empty());
        assert(dept_record_count(one) == board_record_count(one[0].boards) + dept_record_count(
            one.drop_first(),
        ));
    } else if ds[0].department_name == n.department_name {
        lemma_insert_board_count(ds[0].boards, n);
        let r = insert_dept(ds, n);
        assert(r[0] == DeptGroupView {
            department_name: ds[0].department_name,
            boards: insert_board(ds[0].boards, n),
        });
        assert(r.drop_first() =~= ds.drop_first());
        assert(dept_record_count(r) == board_record_count(r[0].boards) + dept_record_count(
            r.drop_first(),
        ));
    } else {
        lemma_insert_dept_count(ds.drop_first(), n);
        let r = insert_dept(ds, n);
        assert(r[0] == ds[0]);
        assert(r.drop_first() =~= insert_dept(ds.drop_first(), n));
        assert(dept_record_count(r) == board_record_count(r[0].boards) + dept_record_count(
            r.drop_first(),
        ));
    }
}

proof fn lemma_insert_campus_count(gs: Seq<CampusGroupView>, n: NoticeView)
    ensures
        campus_record_count(insert_campus(gs, n)) == campus_record_count(gs) + 1,
    decreases gs.len(),
{
    if gs.len() == 0 {
        lemma_insert_dept_count(Seq::<DeptGroupView>::empty(), n);
        assert(dept_record_count(Seq::<DeptGroupView>::empty()) == 0);
        let one = insert_campus(gs, n);
        assert(one[0] == CampusGroupView {
            campus: n.campus,
            departments: insert_dept(Seq::<DeptGroupView>::empty(), n),
        });
        assert(one.drop_first() =~= Seq::<CampusGroupView>::empty());
        assert(campus_record_count(one) == dept_record_count(one[0].departments)
            + campus_record_count(one.drop_first()));
    } else if gs[0].campus == n.campus {
        lemma_insert_dept_count(gs[0].departments, n);
        let r = insert_campus(gs, n);
        assert(r[0] == CampusGroupView {
            campus: gs[0].campus,
            departments: insert_dept(gs[0].departments, n),
        });
        assert(r.drop_first() =~= gs.drop_first());
        assert(campus_record_count(r) == dept_record_count(r[0].departments)
            + campus_record_count(r.drop_first()));
    } else {
        lemma_insert_campus_count(gs.drop_first(), n);
        let r = insert_campus(gs, n);
        assert(r[0] == gs[0]);
        assert(r.drop_first() =~= insert_campus(gs.drop_first(), n));
        assert(campus_record_count(r) == dept_record_count(r[0].departments)
            + campus_record_count(r.drop_first()));
    }
}

/// Regrouping filters nothing and deduplicates nothing: the grouped
/// structure holds exactly as many records as the flat collection.
pub proof fn lemma_grouping_preserves_count(notices: Seq<NoticeView>)
    ensures
        campus_record_count(group_spec(notices)) == notices.len(),
{
    lemma_group_upto_count(notices, notices.len() as int);
}

proof fn lemma_group_upto_count(notices: Seq<NoticeView>, k: int)
    requires
        k <= notices.len(),
    ensures
        campus_record_count(group_upto(notices, k)) == if k <= 0 {
            0int
        } else {
            k
        },
    decreases k,
{
    if k > 0 {
        lemma_group_upto_count(notices, k - 1);
        lemma_insert_campus_count(group_upto(notices, k - 1), notices[k - 1]);
    }
}

/// Whether a character is alphanumeric, as the standard library's
/// Unicode classification defines it.
pub uninterp spec fn char_alphanumeric(c: char) -> bool;

/// Relies on char::is_alphanumeric: the classification depends on the
/// character alone.
#[verifier::external_body]
fn is_alnum(c: char) -> (r: bool)
    ensures
        r == char_alphanumeric(c),
{
    c.is_alphanumeric()
}

/// A board name with every non-alphanumeric character replaced by `-`.
pub open spec fn sanitize_spec(s: Seq<char>) -> Seq<char> {
    s.map_values(
        |c: char|
            if char_alphanumeric(c) {
                c
            } else {
                '-'
            },
    )
}

/// Sanitize a board name for use as a file name: every character that
/// is not alphanumeric becomes `-`.
pub fn sanitize_board_filename(name: &str) -> (r: String)
    ensures
        r@ == sanitize_spec(name@),
{
    let n: usize = name.unicode_len();
    let mut out = String::new();
    let mut i: usize = 0;
    while i < n
        invariant
            i <= n,
            n == name@.len(),
            out@ == sanitize_spec(name@).take(i as int),
        decreases n - i,
    {
        let c = name.get_char(i);
        if is_alnum(c) {
            let piece = name.substring_char(i, i + 1);
            out.append(piece);
            proof {
                assert(piece@ =~= seq![name@[i as int]]);
            }
        } else {
            out.append("-");
            proof {
                reveal_strlit("-");
                assert("-"@ =~= seq!['-']);
            }
        }
        proof {
            assert(out@ =~= sanitize_spec(name@).take(i + 1));
        }
        i = i + 1;
    }
    proof {
        assert(sanitize_spec(name@).take(n as int) =~= sanitize_spec(name@));
    }
    out
}

} // verus!
