//! The grid scanner.
//!
//! After the two header rows, a sheet's body rows are consumed in
//! non-overlapping pairs, an upper and a lower lesson row per time slot; a
//! final unpaired row is ignored.  Pair `k` addresses day `k / 7`, lesson
//! `k % 7`.  Each row must hold, after the three lead-in cells, exactly two
//! cells (description, room) per week-column.  Scanning fills one `Week`
//! buffer per week-column; every slot of every buffer is set exactly once:
//! to the parsed class of its cell pair, or to `None` where the sheet has
//! fewer than 49 row pairs.

use vstd::prelude::*;

use crate::cell::{Cell, CellV};
use crate::errors::SheetError;
use crate::grammar::parse_class_spec;
use crate::model::{day_wf, week_wf, Class, Day, DayV, Week};

verus! {

/// How many (upper, lower) row pairs the body holds from row `start` on.
pub open spec fn pair_count(rows: Seq<Seq<CellV>>, start: int) -> int {
    if rows.len() >= start {
        (rows.len() - start) / 2
    } else {
        0
    }
}

/// A body row must hold the three lead-in cells plus two cells per
/// week-column.
pub open spec fn row_len_ok(row: Seq<CellV>, n: int) -> bool {
    row.len() == 3 + 2 * n
}

/// The cell count of a row after the three lead-in cells.
pub open spec fn after_skip(row: Seq<CellV>) -> usize {
    if row.len() >= 3 {
        (row.len() - 3) as usize
    } else {
        0
    }
}

/// Both rows of pair `k` have the right cell count.
pub open spec fn pair_ok(rows: Seq<Seq<CellV>>, start: int, n: int, k: int) -> bool {
    row_len_ok(rows[start + 2 * k], n) && row_len_ok(rows[start + 2 * k + 1], n)
}

/// The first shape error the scan meets from pair `k` on, if any: pairs are
/// validated in order, the 50th pair is one too many, and within a pair the
/// upper row is checked before the lower one.
pub open spec fn scan_err_from(rows: Seq<Seq<CellV>>, start: int, n: int, k: int) -> Option<
    SheetError,
>
    decreases pair_count(rows, start) - k,
{
    if k < 0 || k >= pair_count(rows, start) {
        None
    } else if k >= 49 {
        Some(SheetError::TooManyRows { row_pairs: pair_count(rows, start) as usize })
    } else if !row_len_ok(rows[start + 2 * k], n) {
        Some(
            SheetError::RowColumnCountMismatch {
                row: (start + 2 * k) as usize,
                expected: (2 * n) as usize,
                actual: after_skip(rows[start + 2 * k]),
            },
        )
    } else if !row_len_ok(rows[start + 2 * k + 1], n) {
        Some(
            SheetError::RowColumnCountMismatch {
                row: (start + 2 * k + 1) as usize,
                expected: (2 * n) as usize,
                actual: after_skip(rows[start + 2 * k + 1]),
            },
        )
    } else {
        scan_err_from(rows, start, n, k + 1)
    }
}

/// What a valid scan leaves in the upper slot of week-column `c`, day `d`,
/// lesson `l`.
pub open spec fn upper_slot(
    rows: Seq<Seq<CellV>>,
    start: int,
    n: int,
    c: int,
    d: int,
    l: int,
) -> Option<crate::model::ClassV> {
    let k = 7 * d + l;
    if k < pair_count(rows, start) {
        parse_class_spec(rows[start + 2 * k][3 + 2 * c], rows[start + 2 * k][3 + 2 * c + 1])
    } else {
        None
    }
}

/// What a valid scan leaves in the lower slot of week-column `c`, day `d`,
/// lesson `l`.
pub open spec fn lower_slot(
    rows: Seq<Seq<CellV>>,
    start: int,
    n: int,
    c: int,
    d: int,
    l: int,
) -> Option<crate::model::ClassV> {
    let k = 7 * d + l;
    if k < pair_count(rows, start) {
        parse_class_spec(
            rows[start + 2 * k + 1][3 + 2 * c],
            rows[start + 2 * k + 1][3 + 2 * c + 1],
        )
    } else {
        None
    }
}

/// Every slot of every returned week holds what its cell pair encodes.
pub open spec fn weeks_filled(
    weeks: Seq<Seq<DayV>>,
    rows: Seq<Seq<CellV>>,
    start: int,
    n: int,
) -> bool {
    &&& weeks.len() == n
    &&& forall|c: int| 0 <= c < n ==> week_wf(#[trigger] weeks[c])
    &&& forall|c: int, d: int, l: int|
        0 <= c < n && 0 <= d < 7 && 0 <= l < 7 ==> (#[trigger] weeks[c][d].upper_classes[l])
            == upper_slot(rows, start, n, c, d, l) && weeks[c][d].lower_classes[l] == lower_slot(
            rows,
            start,
            n,
            c,
            d,
            l,
        )
}

/// Scans the body rows (rows `start` and on) of a sheet into one filled
/// `Week` per week-column.
///
/// Returns the weeks in left-to-right column order, every one of the
/// `7 x 7 x subgroups_num x 2` slots set exactly once; or the first shape
/// error of the body: `TooManyRows` past the 49th row pair, or
/// `RowColumnCountMismatch` for the first row whose cell count after the
/// lead-in is not `2 * subgroups_num`.
pub fn scan_body(rows: &Vec<Vec<Cell>>, start: usize, subgroups_num: usize) -> (r: Result<
    Vec<Week>,
    SheetError,
>)
    requires
        3 + 2 * (subgroups_num as int) <= usize::MAX,
    ensures
        match r {
            Ok(weeks) => scan_err_from(rows.deep_view(), start as int, subgroups_num as int, 0)
                is None && weeks_filled(
                weeks.deep_view(),
                rows.deep_view(),
                start as int,
                subgroups_num as int,
            ),
            Err(e) => scan_err_from(rows.deep_view(), start as int, subgroups_num as int, 0)
                == Some(e),
        },
{
    let ghost rowsv = rows.deep_view();
    let ghost startg = start as int;
    let ghost ng = subgroups_num as int;
    let total = rows.len();
    let n = subgroups_num;
    let expected_len: usize = 3 + 2 * n;
    let pairs: usize = if total >= start {
        (total - start) / 2
    } else {
        0
    };
    proof {
        assert(pairs == pair_count(rowsv, startg));
    }

    // Validation pass: find the first malformed pair, in scan order.
    let mut k: usize = 0;
    while k < pairs
        invariant
            rowsv == rows.deep_view(),
            startg == start as int,
            ng == subgroups_num as int,
            n == subgroups_num,
            total == rows.len(),
            expected_len == 3 + 2 * ng,
            pairs == pair_count(rowsv, startg),
            k <= pairs,
            k <= 49,
            scan_err_from(rowsv, startg, ng, 0) == scan_err_from(rowsv, startg, ng, k as int),
            forall|j: int| 0 <= j < k ==> #[trigger] pair_ok(rowsv, startg, ng, j),
        decreases pairs - k,
    {
        if k >= 49 {
            proof {
                assert(scan_err_from(rowsv, startg, ng, k as int) == Some(
                    SheetError::TooManyRows { row_pairs: pairs },
                ));
            }
            return Err(SheetError::TooManyRows { row_pairs: pairs });
        }
        let upper_len = rows[start + 2 * k].len();
        if upper_len != expected_len {
            let actual = if upper_len >= 3 {
                upper_len - 3
            } else {
                0
            };
            let err = SheetError::RowColumnCountMismatch {
                row: start + 2 * k,
                expected: 2 * n,
                actual,
            };
            proof {
                assert(scan_err_from(rowsv, startg, ng, k as int) == Some(err));
            }
            return Err(err);
        }
        let lower_len = rows[start + 2 * k + 1].len();
        if lower_len != expected_len {
            let actual = if lower_len >= 3 {
                lower_len - 3
            } else {
                0
            };
            let err = SheetError::RowColumnCountMismatch {
                row: start + 2 * k + 1,
                expected: 2 * n,
                actual,
            };
            proof {
                assert(scan_err_from(rowsv, startg, ng, k as int) == Some(err));
            }
            return Err(err);
        }
        proof {
            assert(pair_ok(rowsv, startg, ng, k as int));
            assert(scan_err_from(rowsv, startg, ng, k as int) == scan_err_from(
                rowsv,
                startg,
                ng,
                k as int + 1,
            ));
        }
        k += 1;
    }

    // All pairs are well-shaped; build the week buffers column by column.
    let mut weeks: Vec<Week> = Vec::new();
    let mut c: usize = 0;
    while c < n
        invariant
            rowsv == rows.deep_view(),
            startg == start as int,
            ng == subgroups_num as int,
            n == subgroups_num,
            total == rows.len(),
            pairs == pair_count(rowsv, startg),
            pairs <= 49,
            3 + 2 * ng <= usize::MAX,
            forall|j: int| 0 <= j < pairs ==> #[trigger] pair_ok(rowsv, startg, ng, j),
            c <= n,
            weeks.deep_view().len() == c,
            forall|cc: int| 0 <= cc < c ==> week_wf(#[trigger] weeks.deep_view()[cc]),
            forall|cc: int, d: int, l: int|
                0 <= cc < c && 0 <= d < 7 && 0 <= l < 7 ==> (#[trigger] weeks.deep_view()[cc][d].upper_classes[l])
                    == upper_slot(rowsv, startg, ng, cc, d, l)
                    && weeks.deep_view()[cc][d].lower_classes[l] == lower_slot(
                    rowsv,
                    startg,
                    ng,
                    cc,
                    d,
                    l,
                ),
        decreases n - c,
    {
        let ghost old_weeks = weeks.deep_view();
        let mut week: Week = Vec::new();
        let mut d: usize = 0;
        while d < 7
            invariant
                rowsv == rows.deep_view(),
                startg == start as int,
                ng == subgroups_num as int,
                n == subgroups_num,
                total == rows.len(),
                pairs == pair_count(rowsv, startg),
                pairs <= 49,
                3 + 2 * ng <= usize::MAX,
                forall|j: int| 0 <= j < pairs ==> #[trigger] pair_ok(rowsv, startg, ng, j),
                c < n,
                d <= 7,
                week.deep_view().len() == d,
                forall|dd: int| 0 <= dd < d ==> day_wf(#[trigger] week.deep_view()[dd]),
                forall|dd: int, l: int|
                    0 <= dd < d && 0 <= l < 7 ==> (#[trigger] week.deep_view()[dd].upper_classes[l])
                        == upper_slot(rowsv, startg, ng, c as int, dd, l)
                        && week.deep_view()[dd].lower_classes[l] == lower_slot(
                        rowsv,
                        startg,
                        ng,
                        c as int,
                        dd,
                        l,
                    ),
            decreases 7 - d,
        {
            let ghost old_week = week.deep_view();
            let mut upper: Vec<Option<Class>> = Vec::new();
            let mut lower: Vec<Option<Class>> = Vec::new();
            let mut l: usize = 0;
            while l < 7
                invariant
                    rowsv == rows.deep_view(),
                    startg == start as int,
                    ng == subgroups_num as int,
                    n == subgroups_num,
                    total == rows.len(),
                    pairs == pair_count(rowsv, startg),
                    pairs <= 49,
                    3 + 2 * ng <= usize::MAX,
                    forall|j: int| 0 <= j < pairs ==> #[trigger] pair_ok(rowsv, startg, ng, j),
                    c < n,
                    d < 7,
                    l <= 7,
                    upper.deep_view().len() == l,
                    lower.deep_view().len() == l,
                    forall|ll: int| 0 <= ll < l ==> (#[trigger] upper.deep_view()[ll])
                        == upper_slot(rowsv, startg, ng, c as int, d as int, ll),
                    forall|ll: int| 0 <= ll < l ==> (#[trigger] lower.deep_view()[ll])
                        == lower_slot(rowsv, startg, ng, c as int, d as int, ll),
                decreases 7 - l,
            {
                let kk: usize = 7 * d + l;
                let ghost old_upper = upper.deep_view();
                let ghost old_lower = lower.deep_view();
                if kk < pairs {
                    proof {
                        assert(pair_ok(rowsv, startg, ng, kk as int));
                    }
                    let upper_row = &rows[start + 2 * kk];
                    let up = Class::new(&upper_row[3 + 2 * c], &upper_row[3 + 2 * c + 1]);
                    let lower_row = &rows[start + 2 * kk + 1];
                    let lo = Class::new(&lower_row[3 + 2 * c], &lower_row[3 + 2 * c + 1]);
                    proof {
                        assert(rowsv[startg + 2 * kk] == upper_row.deep_view());
                        assert(rowsv[startg + 2 * kk + 1] == lower_row.deep_view());
                        assert(upper_row.deep_view()[3 + 2 * (c as int)] == upper_row@[3 + 2 * (
                        c as int)].deep_view());
                        assert(lower_row.deep_view()[3 + 2 * (c as int)] == lower_row@[3 + 2 * (
                        c as int)].deep_view());
                    }
                    upper.push(up);
                    lower.push(lo);
                } else {
                    upper.push(None);
                    lower.push(None);
                }
                proof {
                    assert(upper.deep_view() =~= old_upper.push(
                        upper_slot(rowsv, startg, ng, c as int, d as int, l as int),
                    ));
                    assert(lower.deep_view() =~= old_lower.push(
                        lower_slot(rowsv, startg, ng, c as int, d as int, l as int),
                    ));
                }
                l += 1;
            }
            let day = Day { upper_classes: upper, lower_classes: lower };
            let ghost dayv = day.deep_view();
            week.push(day);
            proof {
                assert(week.deep_view() =~= old_week.push(dayv));
                assert(day_wf(dayv));
                assert(week.deep_view()[d as int] == dayv);
                assert(forall|ll: int| 0 <= ll < 7 ==> (#[trigger] dayv.upper_classes[ll])
                    == upper_slot(rowsv, startg, ng, c as int, d as int, ll));
                assert(forall|ll: int| 0 <= ll < 7 ==> (#[trigger] dayv.lower_classes[ll])
                    == lower_slot(rowsv, startg, ng, c as int, d as int, ll));
            }
            d += 1;
        }
        let ghost weekv = week.deep_view();
        weeks.push(week);
        proof {
            assert(weeks.deep_view() =~= old_weeks.push(weekv));
            assert(week_wf(weekv));
            assert(weeks.deep_view()[c as int] == weekv);
            assert(forall|dd: int, ll: int|
                0 <= dd < 7 && 0 <= ll < 7 ==> (#[trigger] weekv[dd].upper_classes[ll])
                    == upper_slot(rowsv, startg, ng, c as int, dd, ll) && weekv[dd].lower_classes[ll]
                    == lower_slot(rowsv, startg, ng, c as int, dd, ll));
        }
        c += 1;
    }
    proof {
        assert(scan_err_from(rowsv, startg, ng, pairs as int) is None);
    }
    Ok(weeks)
}

} // verus!
