//! The cell abstraction the parser works on.
//!
//! A sheet reaches the library as a rectangular grid of [`Cell`] values that
//! some spreadsheet decoder produced.  The schedule grammar only ever asks
//! whether a cell is empty, or holds text (and which text); the value of a
//! numeric or other non-text cell is never read, so it is not stored.

use vstd::prelude::*;

verus! {

/// One cell of a spreadsheet grid.
#[derive(Debug, Clone, PartialEq)]
pub enum Cell {
    /// A cell with no content.
    Empty,
    /// A cell holding a string.
    Text(String),
    /// A cell holding a number or any other non-text content.
    Number,
}

/// The mathematical value of a [`Cell`]: text is abstracted to its
/// character sequence.
pub ghost enum CellV {
    Empty,
    Text(Seq<char>),
    Number,
}

impl View for Cell {
    type V = CellV;

    open spec fn view(&self) -> CellV {
        match self {
            Cell::Empty => CellV::Empty,
            Cell::Text(s) => CellV::Text(s@),
            Cell::Number => CellV::Number,
        }
    }
}

impl DeepView for Cell {
    type V = CellV;

    open spec fn deep_view(&self) -> CellV {
        self.view()
    }
}

} // verus!
