//! The subgroup-header parser.
//!
//! The second row of a sheet tags each week-column with a subgroup number,
//! or leaves it empty for a group without subgroups.  Reading every second
//! cell from offset 3 (the skipped cells are merged room columns), a single
//! left-to-right pass partitions the columns into clusters, one per group:
//! `None` for a one-column group without subgroups, `Some(numbers)` for a
//! group with one column per subgroup number.  An empty cell closes the
//! cluster before it; a number not above its predecessor also closes the
//! cluster, so two numbered groups may sit side by side with no separator.

use vstd::prelude::*;

use crate::cell::{Cell, CellV};
use crate::errors::SheetError;
use crate::text::{parse_u8, parse_u8_spec};

verus! {

/// How many week-columns a cluster spans: one per subgroup number, or a
/// single one for a group without subgroups.
pub open spec fn cluster_width(c: Option<Seq<u8>>) -> int {
    match c {
        None => 1,
        Some(l) => l.len() as int,
    }
}

/// Total week-column count of a cluster sequence.
pub open spec fn total_width(cs: Seq<Option<Seq<u8>>>) -> int
    decreases cs.len(),
{
    if cs.len() == 0 {
        0
    } else {
        cluster_width(cs[0]) + total_width(cs.drop_first())
    }
}

/// Prepends already-emitted clusters to the outcome of the rest of the scan.
pub open spec fn emit(
    emitted: Seq<Option<Seq<u8>>>,
    r: Result<Seq<Option<Seq<u8>>>, SheetError>,
) -> Result<Seq<Option<Seq<u8>>>, SheetError> {
    match r {
        Ok(rest) => Ok(emitted + rest),
        Err(e) => Err(e),
    }
}

/// The clusters the header scan emits from position `i` on, given the state
/// of its single pass: whether no cell was processed yet, and the numbers
/// accumulated for the currently open cluster.
///
/// Whatever the accumulator holds when the cells run out is flushed as the
/// final cluster.
pub open spec fn header_rest(
    row: Seq<CellV>,
    i: int,
    first: bool,
    current: Option<Seq<u8>>,
) -> Result<Seq<Option<Seq<u8>>>, SheetError>
    decreases row.len() + 2 - i,
{
    if i < 0 || i >= row.len() {
        Ok(seq![current])
    } else {
        match row[i] {
            CellV::Empty => emit(
                if first {
                    seq![]
                } else {
                    seq![current]
                },
                header_rest(row, i + 2, false, None),
            ),
            CellV::Text(s) => match parse_u8_spec(s) {
                None => Err(SheetError::UnparsableSubgroupNumber { row: 1, column: i as usize }),
                Some(v) => match current {
                    None => emit(
                        if first {
                            seq![]
                        } else {
                            seq![Option::<Seq<u8>>::None]
                        },
                        header_rest(row, i + 2, false, Some(seq![v])),
                    ),
                    Some(cur) => {
                        if cur.len() > 0 && v <= cur.last() {
                            emit(seq![Some(cur)], header_rest(row, i + 2, false, Some(seq![v])))
                        } else {
                            emit(seq![], header_rest(row, i + 2, false, Some(cur.push(v))))
                        }
                    },
                },
            },
            CellV::Number => Err(SheetError::CellTypeMismatch { row: 1, column: i as usize }),
        }
    }
}

/// What the subgroup-header scan of a whole row yields.
pub open spec fn header_clusters(row: Seq<CellV>) -> Result<Seq<Option<Seq<u8>>>, SheetError> {
    header_rest(row, 3, true, None)
}

/// Every `Some` cluster the scan emits holds at least one subgroup number.
pub open spec fn clusters_nonempty(cs: Seq<Option<Seq<u8>>>) -> bool {
    forall|k: int| 0 <= k < cs.len() ==> match #[trigger] cs[k] {
        Some(l) => l.len() > 0,
        None => true,
    }
}

proof fn lemma_emit_assoc(
    a: Seq<Option<Seq<u8>>>,
    b: Seq<Option<Seq<u8>>>,
    r: Result<Seq<Option<Seq<u8>>>, SheetError>,
)
    ensures
        emit(a, emit(b, r)) == emit(a + b, r),
{
    match r {
        Ok(rest) => {
            assert(a + (b + rest) =~= (a + b) + rest);
        },
        Err(_) => {},
    }
}

/// The number of header cells the scan still considers from position `i` on.
pub open spec fn cells_remaining(len: int, i: int) -> int {
    if i >= len {
        0
    } else {
        (len - i + 1) / 2
    }
}

/// The scan's result never spans more week-columns than one per considered
/// cell, plus the width of the open cluster.
proof fn lemma_header_width(row: Seq<CellV>, i: int, first: bool, current: Option<Seq<u8>>)
    requires
        header_rest(row, i, first, current) is Ok,
    ensures
        total_width(header_rest(row, i, first, current)->Ok_0) <= cells_remaining(
            row.len() as int,
            i,
        ) + cluster_width(current),
        total_width(header_rest(row, i, first, current)->Ok_0) >= 0,
    decreases row.len() + 2 - i,
{
    lemma_total_width_nonneg(header_rest(row, i, first, current)->Ok_0);
    if i < 0 || i >= row.len() {
        let out = seq![current];
        assert(out.drop_first() =~= Seq::<Option<Seq<u8>>>::empty());
        assert(total_width(Seq::<Option<Seq<u8>>>::empty()) == 0);
        assert(total_width(out) == cluster_width(out[0]) + total_width(out.drop_first()));
        assert(out[0] == current);
    } else {
        assert(cells_remaining(row.len() as int, i) >= 1 + cells_remaining(
            row.len() as int,
            i + 2,
        ));
        match row[i] {
            CellV::Empty => {
                lemma_header_width(row, i + 2, false, None);
                let rest = header_rest(row, i + 2, false, None)->Ok_0;
                if first {
                    assert(seq![] + rest =~= rest);
                } else {
                    lemma_total_width_concat(seq![current], rest);
                    lemma_total_width_single(current);
                }
            },
            CellV::Text(s) => match parse_u8_spec(s) {
                None => {},
                Some(v) => match current {
                    None => {
                        lemma_header_width(row, i + 2, false, Some(seq![v]));
                        let rest = header_rest(row, i + 2, false, Some(seq![v]))->Ok_0;
                        if first {
                            assert(seq![] + rest =~= rest);
                        } else {
                            lemma_total_width_concat(seq![Option::<Seq<u8>>::None], rest);
                            lemma_total_width_single(Option::<Seq<u8>>::None);
                        }
                    },
                    Some(cur) => {
                        if cur.len() > 0 && v <= cur.last() {
                            lemma_header_width(row, i + 2, false, Some(seq![v]));
                            let rest = header_rest(row, i + 2, false, Some(seq![v]))->Ok_0;
                            lemma_total_width_concat(seq![Some(cur)], rest);
                            lemma_total_width_single(Some(cur));
                        } else {
                            lemma_header_width(row, i + 2, false, Some(cur.push(v)));
                            let rest = header_rest(row, i + 2, false, Some(cur.push(v)))->Ok_0;
                            assert(seq![] + rest =~= rest);
                        }
                    },
                },
            },
            CellV::Number => {},
        }
    }
}

proof fn lemma_total_width_single(c: Option<Seq<u8>>)
    ensures
        total_width(seq![c]) == cluster_width(c),
{
    let out = seq![c];
    assert(out.drop_first() =~= Seq::<Option<Seq<u8>>>::empty());
    assert(total_width(Seq::<Option<Seq<u8>>>::empty()) == 0);
    assert(total_width(out) == cluster_width(out[0]) + total_width(out.drop_first()));
    assert(out[0] == c);
}

pub proof fn lemma_total_width_nonneg(cs: Seq<Option<Seq<u8>>>)
    ensures
        total_width(cs) >= 0,
    decreases cs.len(),
{
    if cs.len() > 0 {
        lemma_total_width_nonneg(cs.drop_first());
    }
}

proof fn lemma_total_width_concat(a: Seq<Option<Seq<u8>>>, b: Seq<Option<Seq<u8>>>)
    ensures
        total_width(a + b) == total_width(a) + total_width(b),
    decreases a.len(),
{
    if a.len() == 0 {
        assert(a + b =~= b);
    } else {
        assert((a + b).drop_first() =~= a.drop_first() + b);
        lemma_total_width_concat(a.drop_first(), b);
    }
}

/// Splits a cluster sequence's width at position `k`.
pub proof fn lemma_total_width_skip(cs: Seq<Option<Seq<u8>>>, k: int)
    requires
        0 <= k < cs.len(),
    ensures
        total_width(cs.skip(k)) == cluster_width(cs[k]) + total_width(cs.skip(k + 1)),
{
    assert(cs.skip(k).drop_first() =~= cs.skip(k + 1));
    assert(cs.skip(k)[0] == cs[k]);
}

/// Reads the subgroup-header row into the cluster list of its groups.
///
/// Considered cells sit at offset 3, 5, 7, ... of the row; the result's
/// clusters appear in left-to-right order, `None` standing for a group
/// without subgroups and `Some(numbers)` for a group with one week-column
/// per number.  A considered cell that is neither empty nor text yields
/// `CellTypeMismatch`; a text cell that is not a small decimal number
/// yields `UnparsableSubgroupNumber`; in both cases the error names the
/// first such cell.
pub fn parse_subgroup_header(row: &Vec<Cell>) -> (r: Result<Vec<Option<Vec<u8>>>, SheetError>)
    ensures
        match r {
            Ok(cs) => header_clusters(row.deep_view()) == Ok::<_, SheetError>(cs.deep_view())
                && clusters_nonempty(cs.deep_view()),
            Err(e) => header_clusters(row.deep_view()) == Err::<Seq<Option<Seq<u8>>>, _>(e),
        },
{
    let ghost rowv = row.deep_view();
    let n = row.len();
    let mut acc: Vec<Option<Vec<u8>>> = Vec::new();
    let mut current: Option<Vec<u8>> = None;
    let mut first: bool = true;
    let mut i: usize = 3;
    proof {
        assert(acc.deep_view() =~= Seq::<Option<Seq<u8>>>::empty());
    }
    while i < n
        invariant
            rowv == row.deep_view(),
            n == row.len(),
            3 <= i,
            header_clusters(rowv) == emit(
                acc.deep_view(),
                header_rest(rowv, i as int, first, current.deep_view()),
            ),
            current matches Some(c) ==> c@.len() > 0,
            clusters_nonempty(acc.deep_view()),
        decreases n - i,
    {
        let ghost old_acc = acc.deep_view();
        let ghost old_cur = current.deep_view();
        match &row[i] {
            Cell::Empty => {
                if !first {
                    acc.push(current);
                    current = None;
                    proof {
                        assert(acc.deep_view() =~= old_acc.push(old_cur));
                        assert(old_acc.push(old_cur) =~= old_acc + seq![old_cur]);
                        lemma_emit_assoc(old_acc, seq![old_cur], header_rest(rowv, i + 2, false, None));
                    }
                } else {
                    current = None;
                    proof {
                        assert(old_acc + seq![] =~= old_acc);
                        lemma_emit_assoc(old_acc, seq![], header_rest(rowv, i + 2, false, None));
                    }
                }
            },
            Cell::Text(s) => {
                match parse_u8(s.as_str()) {
                    None => {
                        proof {
                            assert(rowv[i as int] == CellV::Text(s@));
                            assert(header_rest(rowv, i as int, first, old_cur) == Err::<
                                Seq<Option<Seq<u8>>>,
                                _,
                            >(SheetError::UnparsableSubgroupNumber { row: 1, column: i }));
                        }
                        return Err(SheetError::UnparsableSubgroupNumber { row: 1, column: i });
                    },
                    Some(v) => {
                        current = match current {
                            None => {
                                if !first {
                                    acc.push(None);
                                    proof {
                                        assert(acc.deep_view() =~= old_acc.push(
                                            Option::<Seq<u8>>::None,
                                        ));
                                        assert(old_acc.push(Option::<Seq<u8>>::None) =~= old_acc
                                            + seq![Option::<Seq<u8>>::None]);
                                        lemma_emit_assoc(
                                            old_acc,
                                            seq![Option::<Seq<u8>>::None],
                                            header_rest(rowv, i + 2, false, Some(seq![v])),
                                        );
                                    }
                                } else {
                                    proof {
                                        assert(old_acc + seq![] =~= old_acc);
                                        lemma_emit_assoc(
                                            old_acc,
                                            seq![],
                                            header_rest(rowv, i + 2, false, Some(seq![v])),
                                        );
                                    }
                                }
                                let mut nv: Vec<u8> = Vec::new();
                                nv.push(v);
                                proof {
                                    assert(nv.deep_view() =~= seq![v]);
                                }
                                Some(nv)
                            },
                            Some(mut cur) => {
                                let last = cur[cur.len() - 1];
                                proof {
                                    assert(cur.deep_view()[cur.deep_view().len() - 1] == last);
                                }
                                if v <= last {
                                    let ghost curv = cur.deep_view();
                                    acc.push(Some(cur));
                                    proof {
                                        assert(acc.deep_view() =~= old_acc.push(Some(curv)));
                                        assert(old_acc.push(Some(curv)) =~= old_acc + seq![
                                            Some(curv),
                                        ]);
                                        lemma_emit_assoc(
                                            old_acc,
                                            seq![Some(curv)],
                                            header_rest(rowv, i + 2, false, Some(seq![v])),
                                        );
                                    }
                                    let mut nv: Vec<u8> = Vec::new();
                                    nv.push(v);
                                    proof {
                                        assert(nv.deep_view() =~= seq![v]);
                                    }
                                    Some(nv)
                                } else {
                                    let ghost curv = cur.deep_view();
                                    cur.push(v);
                                    proof {
                                        assert(cur.deep_view() =~= curv.push(v));
                                        assert(old_acc + seq![] =~= old_acc);
                                        lemma_emit_assoc(
                                            old_acc,
                                            seq![],
                                            header_rest(rowv, i + 2, false, Some(curv.push(v))),
                                        );
                                    }
                                    Some(cur)
                                }
                            },
                        };
                    },
                }
            },
            Cell::Number => {
                proof {
                    assert(rowv[i as int] == CellV::Number);
                    assert(header_rest(rowv, i as int, first, old_cur) == Err::<
                        Seq<Option<Seq<u8>>>,
                        _,
                    >(SheetError::CellTypeMismatch { row: 1, column: i }));
                }
                return Err(SheetError::CellTypeMismatch { row: 1, column: i });
            },
        }
        first = false;
        if n - i >= 2 {
            i += 2;
        } else {
            i = n;
        }
    }
    let ghost final_acc = acc.deep_view();
    let ghost final_cur = current.deep_view();
    acc.push(current);
    proof {
        assert(header_rest(rowv, i as int, first, final_cur) == Ok::<_, SheetError>(
            seq![final_cur],
        ));
        assert(acc.deep_view() =~= final_acc.push(final_cur));
        assert(final_acc.push(final_cur) =~= final_acc + seq![final_cur]);
    }
    Ok(acc)
}

/// Counts the week-columns a cluster list spans: `subgroups_num` in the
/// sheet grammar.
pub fn count_columns(clusters: &Vec<Option<Vec<u8>>>) -> (r: usize)
    requires
        total_width(clusters.deep_view()) <= usize::MAX,
    ensures
        r == total_width(clusters.deep_view()),
{
    let ghost cv = clusters.deep_view();
    let n = clusters.len();
    let mut acc: usize = 0;
    let mut k: usize = 0;
    proof {
        assert(cv.skip(0) =~= cv);
    }
    while k < n
        invariant
            k <= n,
            n == clusters.len(),
            cv == clusters.deep_view(),
            total_width(cv) <= usize::MAX,
            acc + total_width(cv.skip(k as int)) == total_width(cv),
        decreases n - k,
    {
        proof {
            lemma_total_width_skip(cv, k as int);
            lemma_total_width_nonneg(cv.skip(k as int + 1));
        }
        match &clusters[k] {
            None => {
                acc = acc + 1;
            },
            Some(l) => {
                proof {
                    assert(cv[k as int] == Some(l.deep_view()));
                    assert(l.deep_view().len() == l@.len());
                }
                acc = acc + l.len();
            },
        }
        k += 1;
    }
    proof {
        assert(cv.skip(n as int) =~= Seq::<Option<Seq<u8>>>::empty());
    }
    acc
}

/// Before the first considered cell, the scan's width is bounded by one per
/// considered cell, or one for the lone flushed cluster of a header without
/// cells.
proof fn lemma_header_width_initial(row: Seq<CellV>, i: int)
    requires
        0 <= i,
        header_rest(row, i, true, None) is Ok,
    ensures
        total_width(header_rest(row, i, true, None)->Ok_0) <= if cells_remaining(
            row.len() as int,
            i,
        ) > 0 {
            cells_remaining(row.len() as int, i)
        } else {
            1
        },
{
    if i >= row.len() {
        lemma_total_width_single(None);
    } else {
        assert(cells_remaining(row.len() as int, i) >= 1 + cells_remaining(
            row.len() as int,
            i + 2,
        ));
        match row[i] {
            CellV::Empty => {
                lemma_header_width(row, i + 2, false, None);
                let rest = header_rest(row, i + 2, false, None)->Ok_0;
                assert(seq![] + rest =~= rest);
            },
            CellV::Text(s) => match parse_u8_spec(s) {
                None => {},
                Some(v) => {
                    lemma_header_width(row, i + 2, false, Some(seq![v]));
                    let rest = header_rest(row, i + 2, false, Some(seq![v]))->Ok_0;
                    assert(seq![] + rest =~= rest);
                },
            },
            CellV::Number => {},
        }
    }
}

/// `subgroups_num` of a whole header row is at most one per considered
/// cell (and at least the one cluster a header without cells yields), so it
/// always fits a machine word.
pub proof fn lemma_header_clusters_width(row: Seq<CellV>)
    requires
        header_clusters(row) is Ok,
    ensures
        0 <= total_width(header_clusters(row)->Ok_0),
        total_width(header_clusters(row)->Ok_0) <= if cells_remaining(row.len() as int, 3) > 0 {
            cells_remaining(row.len() as int, 3)
        } else {
            1
        },
{
    lemma_total_width_nonneg(header_clusters(row)->Ok_0);
    lemma_header_width_initial(row, 3);
}

} // verus!
