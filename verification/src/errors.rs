//! Typed errors for malformed sheets.
//!
//! Every shape violation is reported with enough context (row and column
//! index inside the sheet, or the sheet's position and name) to diagnose a
//! malformed source file.  An empty lesson slot is not an error: the cell
//! grammar encodes it as an absent class.

use vstd::prelude::*;

verus! {

/// A shape violation local to one sheet.  Row and column indices are
/// zero-based positions in the sheet's grid.
#[derive(Debug, Clone, Copy, PartialEq, Eq)]
pub enum SheetError {
    /// A cell that must hold text (a subgroup number) holds something else.
    CellTypeMismatch { row: usize, column: usize },
    /// A non-empty subgroup-header cell's text is not a small positive integer.
    UnparsableSubgroupNumber { row: usize, column: usize },
    /// A body row's cell count after the three lead-in cells is not twice the
    /// number of week-columns.
    RowColumnCountMismatch { row: usize, expected: usize, actual: usize },
    /// More than 49 lesson-row pairs in one sheet.
    TooManyRows { row_pairs: usize },
    /// The number of group-name cells does not match the number of subgroup
    /// clusters.
    GroupSubgroupCountMismatch { group_names: usize, clusters: usize },
}

/// An error of the whole conversion.
#[derive(Debug, Clone, PartialEq, Eq)]
pub enum ScheduleError {
    /// The workbook does not hold exactly four sheets.
    WrongSheetCount { actual: usize },
    /// One sheet is malformed; the others are unaffected.
    SheetFailed { sheet: usize, name: String, error: SheetError },
}

} // verus!
