//! The sheet assembler and the multi-sheet driver.
//!
//! The first header row names the groups (merged cells leave exactly one
//! text cell per group cluster), the second header row is the subgroup
//! header, and the body rows feed the grid scanner.  Zipping the names with
//! the subgroup clusters and handing out the scanned week buffers in
//! left-to-right order yields the groups of one [`Course`]; a workbook of
//! exactly four sheets yields four courses.

use vstd::prelude::*;

use crate::cell::{Cell, CellV};
use crate::errors::{ScheduleError, SheetError};
use crate::header::{
    cells_remaining, cluster_width, clusters_nonempty, count_columns, header_clusters,
    lemma_header_clusters_width, lemma_total_width_nonneg, lemma_total_width_skip,
    parse_subgroup_header, total_width,
};
use crate::model::{
    course_wf, group_wf, week_wf, Course, CourseV, GroupInfo, GroupInfoV, Subgroup, SubgroupV,
    Week, WeekInfo, WeekInfoV,
};
use crate::scan::{lower_slot, scan_body, scan_err_from, upper_slot, weeks_filled};

verus! {

/// One named sheet of the workbook: a rectangular grid of cells.
#[derive(Debug, Clone, PartialEq)]
pub struct Sheet {
    pub name: String,
    pub rows: Vec<Vec<Cell>>,
}

/// The mathematical value of a [`Sheet`].
pub ghost struct SheetV {
    pub name: Seq<char>,
    pub rows: Seq<Seq<CellV>>,
}

impl View for Sheet {
    type V = SheetV;

    open spec fn view(&self) -> SheetV {
        SheetV { name: self.name@, rows: self.rows.deep_view() }
    }
}

impl DeepView for Sheet {
    type V = SheetV;

    open spec fn deep_view(&self) -> SheetV {
        self.view()
    }
}

/// The group names of a header row from cell `i` on: the text cells, in
/// order; cells of any other kind are skipped (they come from merged
/// ranges).
pub open spec fn names_from(row: Seq<CellV>, i: int) -> Seq<Seq<char>>
    decreases row.len() - i,
{
    if i < 0 || i >= row.len() {
        seq![]
    } else {
        match row[i] {
            CellV::Text(s) => seq![s] + names_from(row, i + 1),
            _ => names_from(row, i + 1),
        }
    }
}

/// The group names of the first header row: its text cells from offset 3 on.
pub open spec fn group_names(row: Seq<CellV>) -> Seq<Seq<char>> {
    names_from(row, 3)
}

/// Collects the group names of the first header row.
pub fn collect_names(row: &Vec<Cell>) -> (r: Vec<String>)
    ensures
        r.deep_view() == group_names(row.deep_view()),
{
    let ghost rowv = row.deep_view();
    let n = row.len();
    let mut acc: Vec<String> = Vec::new();
    let mut i: usize = 3;
    proof {
        assert(acc.deep_view() + names_from(rowv, 3) =~= names_from(rowv, 3));
    }
    while i < n
        invariant
            rowv == row.deep_view(),
            n == row.len(),
            3 <= i,
            group_names(rowv) == acc.deep_view() + names_from(rowv, i as int),
        decreases n - i,
    {
        let ghost old_acc = acc.deep_view();
        match &row[i] {
            Cell::Text(s) => {
                acc.push(s.clone());
                proof {
                    assert(acc.deep_view() =~= old_acc.push(s@));
                    assert(old_acc.push(s@) =~= old_acc + seq![s@]);
                    assert(old_acc + (seq![s@] + names_from(rowv, i as int + 1)) =~= (old_acc
                        + seq![s@]) + names_from(rowv, i as int + 1));
                }
            },
            _ => {},
        }
        i += 1;
    }
    proof {
        assert(names_from(rowv, i as int) =~= Seq::<Seq<char>>::empty());
        assert(acc.deep_view() + Seq::<Seq<char>>::empty() =~= acc.deep_view());
    }
    acc
}

/// The groups that zipping names, clusters and week buffers yields: each
/// cluster takes one name and as many consecutive weeks as it is wide.
pub open spec fn assemble_groups(
    names: Seq<Seq<char>>,
    clusters: Seq<Option<Seq<u8>>>,
    weeks: Seq<Seq<crate::model::DayV>>,
) -> Seq<GroupInfoV>
    decreases clusters.len(),
{
    if clusters.len() == 0 || names.len() == 0 {
        seq![]
    } else {
        let g = match clusters[0] {
            None => GroupInfoV {
                name: names[0],
                subgroups: WeekInfoV::WithoutSubgroup(weeks[0]),
            },
            Some(l) => GroupInfoV {
                name: names[0],
                subgroups: WeekInfoV::WithSubgroups(
                    Seq::new(l.len(), |j: int| SubgroupV { number: l[j], days: weeks[j] }),
                ),
            },
        };
        seq![g] + assemble_groups(
            names.drop_first(),
            clusters.drop_first(),
            weeks.skip(cluster_width(clusters[0])),
        )
    }
}

/// Zips the group names with the subgroup clusters, handing out the scanned
/// weeks in left-to-right order.
///
/// Fails with `GroupSubgroupCountMismatch` exactly when the number of names
/// differs from the number of clusters.
pub fn assemble(names: Vec<String>, clusters: &Vec<Option<Vec<u8>>>, weeks: Vec<Week>) -> (r:
    Result<Vec<GroupInfo>, SheetError>)
    requires
        weeks.deep_view().len() == total_width(clusters.deep_view()),
        forall|i: int| 0 <= i < weeks.deep_view().len() ==> week_wf(#[trigger] weeks.deep_view()[i]),
        clusters_nonempty(clusters.deep_view()),
    ensures
        match r {
            Ok(gs) => names.deep_view().len() == clusters.deep_view().len() && gs.deep_view()
                == assemble_groups(names.deep_view(), clusters.deep_view(), weeks.deep_view())
                && forall|i: int|
                0 <= i < gs.deep_view().len() ==> group_wf(#[trigger] gs.deep_view()[i]),
            Err(e) => names.deep_view().len() != clusters.deep_view().len() && e
                == SheetError::GroupSubgroupCountMismatch {
                group_names: names.len(),
                clusters: clusters.len(),
            },
        },
{
    let ghost namesv = names.deep_view();
    let ghost clustersv = clusters.deep_view();
    let ghost weeksv = weeks.deep_view();
    if names.len() != clusters.len() {
        return Err(
            SheetError::GroupSubgroupCountMismatch {
                group_names: names.len(),
                clusters: clusters.len(),
            },
        );
    }
    let total = clusters.len();
    let mut names = names;
    let mut weeks = weeks;
    let mut out: Vec<GroupInfo> = Vec::new();
    let mut g: usize = 0;
    proof {
        assert(namesv.skip(0) =~= namesv);
        assert(clustersv.skip(0) =~= clustersv);
        assert(weeksv.skip(0) =~= weeksv);
        assert(out.deep_view() + assemble_groups(namesv, clustersv, weeksv) =~= assemble_groups(
            namesv,
            clustersv,
            weeksv,
        ));
    }
    while g < total
        invariant
            clustersv == clusters.deep_view(),
            total == clusters.len(),
            namesv.len() == clustersv.len(),
            g <= total,
            names.deep_view() == namesv.skip(g as int),
            weeks.deep_view().len() == total_width(clustersv.skip(g as int)),
            forall|i: int|
                0 <= i < weeks.deep_view().len() ==> week_wf(#[trigger] weeks.deep_view()[i]),
            clusters_nonempty(clustersv),
            assemble_groups(namesv, clustersv, weeksv) == out.deep_view() + assemble_groups(
                names.deep_view(),
                clustersv.skip(g as int),
                weeks.deep_view(),
            ),
            forall|i: int| 0 <= i < out.deep_view().len() ==> group_wf(#[trigger] out.deep_view()[i]),
        decreases total - g,
    {
        let ghost old_out = out.deep_view();
        let ghost old_names = names.deep_view();
        let ghost old_weeks = weeks.deep_view();
        let ghost suffix = clustersv.skip(g as int);
        proof {
            lemma_total_width_skip(clustersv, g as int);
            lemma_total_width_nonneg(clustersv.skip(g as int + 1));
            assert(suffix[0] == clustersv[g as int]);
            assert(suffix.drop_first() =~= clustersv.skip(g as int + 1));
            assert(old_names[0] == namesv[g as int]);
            assert(old_names.drop_first() =~= namesv.skip(g as int + 1));
        }
        let name = names.remove(0);
        match &clusters[g] {
            None => {
                let w = weeks.remove(0);
                let group = GroupInfo { name, subgroups: WeekInfo::WithoutSubgroup(w) };
                let ghost groupv = group.deep_view();
                out.push(group);
                proof {
                    assert(weeks.deep_view() =~= old_weeks.skip(1));
                    assert(names.deep_view() =~= namesv.skip(g as int + 1));
                    assert(groupv == GroupInfoV {
                        name: namesv[g as int],
                        subgroups: WeekInfoV::WithoutSubgroup(old_weeks[0]),
                    });
                    assert(out.deep_view() =~= old_out.push(groupv));
                    assert(old_out.push(groupv) =~= old_out + seq![groupv]);
                    assert(assemble_groups(old_names, suffix, old_weeks) == seq![groupv]
                        + assemble_groups(
                        names.deep_view(),
                        clustersv.skip(g as int + 1),
                        weeks.deep_view(),
                    ));
                    assert(old_out + (seq![groupv] + assemble_groups(
                        names.deep_view(),
                        clustersv.skip(g as int + 1),
                        weeks.deep_view(),
                    )) =~= (old_out + seq![groupv]) + assemble_groups(
                        names.deep_view(),
                        clustersv.skip(g as int + 1),
                        weeks.deep_view(),
                    ));
                    assert(week_wf(old_weeks[0]));
                    assert(group_wf(groupv));
                }
            },
            Some(l) => {
                let ghost lv = l.deep_view();
                let width = l.len();
                proof {
                    assert(lv.len() > 0);
                    assert(cluster_width(suffix[0]) == lv.len());
                }
                let mut subs: Vec<Subgroup> = Vec::new();
                let mut j: usize = 0;
                while j < width
                    invariant
                        lv == l.deep_view(),
                        width == l.len(),
                        j <= width,
                        old_weeks.len() >= width,
                        weeks.deep_view() == old_weeks.skip(j as int),
                        forall|i: int|
                            0 <= i < weeks.deep_view().len() ==> week_wf(
                                #[trigger] weeks.deep_view()[i],
                            ),
                        subs.deep_view() =~= Seq::new(
                            j as nat,
                            |x: int| SubgroupV { number: lv[x], days: old_weeks[x] },
                        ),
                    decreases width - j,
                {
                    let ghost old_subs = subs.deep_view();
                    let ghost old_w = weeks.deep_view();
                    let w = weeks.remove(0);
                    let sub = Subgroup { number: l[j], days: w };
                    let ghost subv = sub.deep_view();
                    subs.push(sub);
                    proof {
                        assert(weeks.deep_view() =~= old_w.skip(1));
                        assert(old_w.skip(1) =~= old_weeks.skip(j as int + 1));
                        assert(w.deep_view() == old_w[0]);
                        assert(old_w[0] == old_weeks[j as int]);
                        assert(lv[j as int] == l@[j as int]);
                        assert(subv == SubgroupV { number: lv[j as int], days: old_weeks[j as int] });
                        assert(subs.deep_view() =~= old_subs.push(subv));
                        assert(subs.deep_view() =~= Seq::new(
                            (j + 1) as nat,
                            |x: int| SubgroupV { number: lv[x], days: old_weeks[x] },
                        ));
                    }
                    j += 1;
                }
                let group = GroupInfo { name, subgroups: WeekInfo::WithSubgroups(subs) };
                let ghost groupv = group.deep_view();
                out.push(group);
                proof {
                    assert(weeks.deep_view() =~= old_weeks.skip(width as int));
                    assert(names.deep_view() =~= namesv.skip(g as int + 1));
                    assert(groupv == GroupInfoV {
                        name: namesv[g as int],
                        subgroups: WeekInfoV::WithSubgroups(
                            Seq::new(lv.len(), |x: int| SubgroupV { number: lv[x], days: old_weeks[x] }),
                        ),
                    });
                    assert(out.deep_view() =~= old_out.push(groupv));
                    assert(old_out.push(groupv) =~= old_out + seq![groupv]);
                    assert(assemble_groups(old_names, suffix, old_weeks) == seq![groupv]
                        + assemble_groups(
                        names.deep_view(),
                        clustersv.skip(g as int + 1),
                        weeks.deep_view(),
                    ));
                    assert(old_out + (seq![groupv] + assemble_groups(
                        names.deep_view(),
                        clustersv.skip(g as int + 1),
                        weeks.deep_view(),
                    )) =~= (old_out + seq![groupv]) + assemble_groups(
                        names.deep_view(),
                        clustersv.skip(g as int + 1),
                        weeks.deep_view(),
                    ));
                    assert(forall|x: int| 0 <= x < lv.len() ==> week_wf(old_weeks[x]));
                    assert(group_wf(groupv));
                }
            },
        }
        g += 1;
    }
    proof {
        assert(clustersv.skip(total as int).len() == 0);
        assert(assemble_groups(names.deep_view(), clustersv.skip(total as int), weeks.deep_view())
            =~= Seq::<GroupInfoV>::empty());
        assert(out.deep_view() + Seq::<GroupInfoV>::empty() =~= out.deep_view());
    }
    Ok(out)
}

/// The canonical week buffers a valid scan of the body rows produces.
pub open spec fn scanned_weeks(rows: Seq<Seq<CellV>>, start: int, n: int) -> Seq<
    Seq<crate::model::DayV>,
> {
    Seq::new(
        n as nat,
        |c: int| Seq::new(
            7,
            |d: int| crate::model::DayV {
                upper_classes: Seq::new(7, |l: int| upper_slot(rows, start, n, c, d, l)),
                lower_classes: Seq::new(7, |l: int| lower_slot(rows, start, n, c, d, l)),
            },
        ),
    )
}

/// Any weeks satisfying the scanner's slot description are the canonical
/// ones.
proof fn lemma_weeks_canonical(
    weeks: Seq<Seq<crate::model::DayV>>,
    rows: Seq<Seq<CellV>>,
    start: int,
    n: int,
)
    requires
        n >= 0,
        weeks_filled(weeks, rows, start, n),
    ensures
        weeks == scanned_weeks(rows, start, n),
{
    let sw = scanned_weeks(rows, start, n);
    assert forall|c: int, d: int| 0 <= c < n && 0 <= d < 7 implies weeks[c][d] == sw[c][d] by {
        assert(week_wf(weeks[c]));
        assert(crate::model::day_wf(weeks[c][d]));
        assert forall|l: int| 0 <= l < 7 implies weeks[c][d].lower_classes[l] == lower_slot(
            rows,
            start,
            n,
            c,
            d,
            l,
        ) by {
            assert(weeks[c][d].upper_classes[l] == upper_slot(rows, start, n, c, d, l));
        }
        assert(weeks[c][d].upper_classes =~= sw[c][d].upper_classes);
        assert(weeks[c][d].lower_classes =~= sw[c][d].lower_classes);
    }
    assert forall|c: int| 0 <= c < n implies weeks[c] =~= sw[c] by {
        assert(week_wf(weeks[c]));
    }
    assert(weeks =~= sw);
}

/// What converting one sheet yields: the course named after the sheet, or
/// the sheet's first shape error.
///
/// The first row names the groups, the second is the subgroup header, the
/// rest is the body; a missing header row reads as an empty one.  Errors
/// are met in this order: a bad subgroup-header cell, a bad body shape,
/// then a name/cluster count mismatch.
pub open spec fn sheet_course(s: SheetV) -> Result<CourseV, SheetError> {
    let row0 = if s.rows.len() >= 1 {
        s.rows[0]
    } else {
        Seq::<CellV>::empty()
    };
    let row1 = if s.rows.len() >= 2 {
        s.rows[1]
    } else {
        Seq::<CellV>::empty()
    };
    match header_clusters(row1) {
        Err(e) => Err(e),
        Ok(clusters) => {
            let n = total_width(clusters);
            match scan_err_from(s.rows, 2, n, 0) {
                Some(e) => Err(e),
                None => {
                    let names = group_names(row0);
                    if names.len() != clusters.len() {
                        Err(
                            SheetError::GroupSubgroupCountMismatch {
                                group_names: names.len() as usize,
                                clusters: clusters.len() as usize,
                            },
                        )
                    } else {
                        Ok(
                            CourseV {
                                name: s.name,
                                groups: assemble_groups(
                                    names,
                                    clusters,
                                    scanned_weeks(s.rows, 2, n),
                                ),
                            },
                        )
                    }
                },
            }
        },
    }
}

/// Converts one sheet into its course.
pub fn parse_sheet(sheet: &Sheet) -> (r: Result<Course, SheetError>)
    ensures
        match r {
            Ok(c) => sheet_course(sheet@) == Ok::<CourseV, SheetError>(c.deep_view())
                && course_wf(c.deep_view()),
            Err(e) => sheet_course(sheet@) == Err::<CourseV, SheetError>(e),
        },
{
    let ghost sv = sheet@;
    let rows = &sheet.rows;
    let ghost row0v = if sv.rows.len() >= 1 {
        sv.rows[0]
    } else {
        Seq::<CellV>::empty()
    };
    let ghost row1v = if sv.rows.len() >= 2 {
        sv.rows[1]
    } else {
        Seq::<CellV>::empty()
    };
    let names: Vec<String> = if rows.len() >= 1 {
        collect_names(&rows[0])
    } else {
        Vec::new()
    };
    proof {
        if sv.rows.len() < 1 {
            assert(names.deep_view() =~= Seq::<Seq<char>>::empty());
            assert(group_names(row0v) =~= Seq::<Seq<char>>::empty());
        }
        assert(names.deep_view() == group_names(row0v));
    }
    let ghost namesv = names.deep_view();
    let mut row1_len: usize = 0;
    let clusters: Vec<Option<Vec<u8>>> = if rows.len() >= 2 {
        row1_len = rows[1].len();
        match parse_subgroup_header(&rows[1]) {
            Ok(cs) => cs,
            Err(e) => {
                proof {
                    assert(header_clusters(row1v) == Err::<Seq<Option<Seq<u8>>>, _>(e));
                }
                return Err(e);
            },
        }
    } else {
        let mut v: Vec<Option<Vec<u8>>> = Vec::new();
        v.push(None);
        proof {
            assert(header_clusters(row1v) == Ok::<_, SheetError>(seq![Option::<Seq<u8>>::None]));
            assert(v.deep_view() =~= seq![Option::<Seq<u8>>::None]);
        }
        v
    };
    let ghost clustersv = clusters.deep_view();
    proof {
        assert(header_clusters(row1v) == Ok::<_, SheetError>(clustersv));
        assert(clusters_nonempty(clustersv));
        lemma_header_clusters_width(row1v);
        assert(row1v.len() <= row1_len);
        assert(total_width(clustersv) <= usize::MAX);
    }
    let n = count_columns(&clusters);
    proof {
        // The scanner's row-width arithmetic needs 3 + 2n to fit a machine
        // word; n is at most one column per considered header cell, and a
        // row never holds more than usize::MAX cells.  Since 2n is even and
        // usize::MAX odd, 3 + 2n cannot land just past the maximum.
        if cells_remaining(row1v.len() as int, 3) > 0 {
            let q = cells_remaining(row1v.len() as int, 3);
            assert(q == (row1v.len() - 2) / 2);
            assert(2 * q <= row1v.len() - 2);
            assert(usize::MAX % 2 == 1);
            assert((2 * q) % 2 == 0);
            assert(3 + 2 * q <= usize::MAX) by {
                if 3 + 2 * q > usize::MAX {
                    assert(2 * q >= usize::MAX - 2);
                    assert(2 * q != usize::MAX - 2);
                    assert(2 * q != usize::MAX);
                    assert(2 * q >= usize::MAX - 1);
                    assert(row1v.len() >= usize::MAX + 1);
                }
            }
        }
        assert(3 + 2 * (n as int) <= usize::MAX);
    }
    let weeks = match scan_body(rows, 2, n) {
        Ok(w) => w,
        Err(e) => {
            proof {
                assert(scan_err_from(sv.rows, 2, n as int, 0) == Some(e));
            }
            return Err(e);
        },
    };
    let ghost weeksv = weeks.deep_view();
    proof {
        assert(weeks_filled(weeksv, sv.rows, 2, n as int));
        lemma_weeks_canonical(weeksv, sv.rows, 2, n as int);
    }
    let course_name = sheet.name.clone();
    let groups = match assemble(names, &clusters, weeks) {
        Ok(g) => g,
        Err(e) => {
            proof {
                assert(namesv.len() != clustersv.len());
                assert(group_names(row0v).len() as usize == namesv.len() as usize);
            }
            return Err(e);
        },
    };
    let course = Course { name: course_name, groups };
    proof {
        assert(course.deep_view() == CourseV {
            name: sv.name,
            groups: assemble_groups(namesv, clustersv, scanned_weeks(sv.rows, 2, n as int)),
        });
        assert(course_wf(course.deep_view()));
    }
    Ok(course)
}

/// The decoded workbook: its sheets, in file order.
#[derive(Debug, Clone, PartialEq)]
pub struct ExcelData {
    pub pages: Vec<Sheet>,
}

impl ExcelData {
    /// Wraps the decoded sheets of one workbook.
    pub fn new(pages: Vec<Sheet>) -> (r: ExcelData)
        ensures
            r.pages == pages,
    {
        ExcelData { pages }
    }

    /// Converts the workbook: exactly four sheets in, four courses out, in
    /// sheet order.
    ///
    /// Fails fast with `WrongSheetCount` before looking at any sheet when
    /// the count is off; otherwise the sheets are converted independently
    /// and the first malformed one is reported with its position and name.
    pub fn parse(self) -> (r: Result<Vec<Course>, ScheduleError>)
        ensures
            self.pages.deep_view().len() != 4 ==> r == Err::<Vec<Course>, _>(
                ScheduleError::WrongSheetCount { actual: self.pages.len() },
            ),
            self.pages.deep_view().len() == 4 ==> match r {
                Ok(cs) => cs.deep_view().len() == 4 && forall|i: int|
                    0 <= i < 4 ==> sheet_course(#[trigger] self.pages.deep_view()[i]) == Ok::<
                        CourseV,
                        SheetError,
                    >(cs.deep_view()[i]) && course_wf(cs.deep_view()[i]),
                Err(e) => e matches ScheduleError::SheetFailed { sheet, name, error } && {
                    &&& 0 <= (sheet as int) < 4
                    &&& sheet_course(self.pages.deep_view()[sheet as int]) == Err::<
                        CourseV,
                        SheetError,
                    >(error)
                    &&& name@ == self.pages.deep_view()[sheet as int].name
                    &&& forall|j: int|
                        0 <= j < sheet as int ==> sheet_course(
                            #[trigger] self.pages.deep_view()[j],
                        ) is Ok
                },
            },
    {
        let ghost pagesv = self.pages.deep_view();
        if self.pages.len() != 4 {
            return Err(ScheduleError::WrongSheetCount { actual: self.pages.len() });
        }
        let mut courses: Vec<Course> = Vec::new();
        let mut i: usize = 0;
        while i < 4
            invariant
                pagesv == self.pages.deep_view(),
                self.pages.len() == 4,
                i <= 4,
                courses.deep_view().len() == i,
                forall|j: int|
                    0 <= j < i ==> sheet_course(#[trigger] pagesv[j]) == Ok::<
                        CourseV,
                        SheetError,
                    >(courses.deep_view()[j]) && course_wf(courses.deep_view()[j]),
            decreases 4 - i,
        {
            let ghost old_courses = courses.deep_view();
            match parse_sheet(&self.pages[i]) {
                Ok(c) => {
                    let ghost cv = c.deep_view();
                    courses.push(c);
                    proof {
                        assert(courses.deep_view() =~= old_courses.push(cv));
                        assert(self.pages[i as int].deep_view() == pagesv[i as int]);
                    }
                },
                Err(e) => {
                    proof {
                        assert(self.pages[i as int].deep_view() == pagesv[i as int]);
                    }
                    return Err(
                        ScheduleError::SheetFailed {
                            sheet: i,
                            name: self.pages[i].name.clone(),
                            error: e,
                        },
                    );
                },
            }
            i += 1;
        }
        Ok(courses)
    }
}

} // verus!
