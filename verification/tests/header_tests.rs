use timetable::cell::Cell;
use timetable::errors::SheetError;
use timetable::header::{count_columns, parse_subgroup_header};
use timetable::text::parse_u8;

fn num_cell(s: &str) -> Cell {
    Cell::Text(s.to_string())
}

fn lead() -> Vec<Cell> {
    vec![Cell::Empty, Cell::Empty, Cell::Empty]
}

#[test]
fn header_two_clusters_share_no_separator() {
    // Considered cells (offset 3, step 2): "1", "2", "1".
    let mut row = lead();
    row.push(num_cell("1"));
    row.push(Cell::Empty);
    row.push(num_cell("2"));
    row.push(Cell::Empty);
    row.push(num_cell("1"));
    row.push(Cell::Empty);
    let clusters = parse_subgroup_header(&row).unwrap();
    assert_eq!(clusters, vec![Some(vec![1, 2]), Some(vec![1])]);
    assert_eq!(count_columns(&clusters), 3);
}

#[test]
fn header_without_cells_is_one_group() {
    let row = lead();
    let clusters = parse_subgroup_header(&row).unwrap();
    assert_eq!(clusters, vec![None]);
    assert_eq!(count_columns(&clusters), 1);
}

#[test]
fn header_empty_cells_are_groups_without_subgroups() {
    let mut row = lead();
    row.push(Cell::Empty);
    row.push(Cell::Empty);
    row.push(Cell::Empty);
    // Considered cells: two empty ones.
    let clusters = parse_subgroup_header(&row).unwrap();
    assert_eq!(clusters, vec![None, None]);
    assert_eq!(count_columns(&clusters), 2);
}

#[test]
fn header_empty_cell_closes_cluster() {
    // Considered cells: "1", "2", empty, "1".  The empty cell closes the
    // first cluster and stands for a group without subgroups; the following
    // number then opens a new cluster.
    let mut row = lead();
    row.push(num_cell("1"));
    row.push(Cell::Empty);
    row.push(num_cell("2"));
    row.push(Cell::Empty);
    row.push(Cell::Empty);
    row.push(Cell::Empty);
    row.push(num_cell("1"));
    let clusters = parse_subgroup_header(&row).unwrap();
    assert_eq!(clusters, vec![Some(vec![1, 2]), None, Some(vec![1])]);
    assert_eq!(count_columns(&clusters), 4);
}

#[test]
fn header_equal_number_closes_cluster() {
    // Considered cells: "1", "1": a number not above its predecessor starts
    // a new cluster.
    let mut row = lead();
    row.push(num_cell("1"));
    row.push(Cell::Empty);
    row.push(num_cell("1"));
    let clusters = parse_subgroup_header(&row).unwrap();
    assert_eq!(clusters, vec![Some(vec![1]), Some(vec![1])]);
}

#[test]
fn header_number_cell_of_wrong_kind_is_error() {
    let mut row = lead();
    row.push(Cell::Number);
    let err = parse_subgroup_header(&row).unwrap_err();
    assert_eq!(err, SheetError::CellTypeMismatch { row: 1, column: 3 });
}

#[test]
fn header_unparsable_number_is_error() {
    let mut row = lead();
    row.push(num_cell("1"));
    row.push(Cell::Empty);
    row.push(num_cell("abc"));
    let err = parse_subgroup_header(&row).unwrap_err();
    assert_eq!(err, SheetError::UnparsableSubgroupNumber { row: 1, column: 5 });
}

#[test]
fn parse_u8_accepts_decimal() {
    assert_eq!(parse_u8("7"), Some(7));
    assert_eq!(parse_u8("007"), Some(7));
    assert_eq!(parse_u8("+42"), Some(42));
    assert_eq!(parse_u8("255"), Some(255));
}

#[test]
fn parse_u8_rejects_other_text() {
    assert_eq!(parse_u8(""), None);
    assert_eq!(parse_u8("+"), None);
    assert_eq!(parse_u8("256"), None);
    assert_eq!(parse_u8("12a"), None);
    assert_eq!(parse_u8("-1"), None);
    assert_eq!(parse_u8(" 1"), None);
}
