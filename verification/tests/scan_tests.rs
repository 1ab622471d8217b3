use timetable::cell::Cell;
use timetable::errors::SheetError;
use timetable::model::ClassType;
use timetable::scan::scan_body;

fn text(s: &str) -> Cell {
    Cell::Text(s.to_string())
}

fn empty_row(len: usize) -> Vec<Cell> {
    vec![Cell::Empty; len]
}

#[test]
fn scan_fills_every_slot_once() {
    // One week-column; one row pair carrying a class in the upper row only.
    let mut rows = vec![empty_row(5), empty_row(5)];
    let mut upper = empty_row(5);
    upper[3] = text("Math (Практические)\nTeacher");
    upper[4] = text("Class");
    rows.push(upper);
    rows.push(empty_row(5));
    let weeks = scan_body(&rows, 2, 1).unwrap();
    assert_eq!(weeks.len(), 1);
    let week = &weeks[0];
    assert_eq!(week.len(), 7);
    for (d, day) in week.iter().enumerate() {
        assert_eq!(day.upper_classes.len(), 7);
        assert_eq!(day.lower_classes.len(), 7);
        for l in 0..7 {
            if d == 0 && l == 0 {
                let class = day.upper_classes[0].as_ref().expect("slot must be filled");
                assert_eq!(class.name, "Math");
                assert_eq!(class.class_type, ClassType::Practice);
                assert_eq!(class.teacher.as_deref(), Some("Teacher"));
                assert_eq!(class.room, "Class");
            } else {
                assert_eq!(day.upper_classes[l], None, "day {} lesson {}", d, l);
            }
            assert_eq!(day.lower_classes[l], None, "day {} lesson {}", d, l);
        }
    }
}

#[test]
fn scan_addresses_day_and_lesson_by_pair_index() {
    // Pair 48 is day 6, lesson 6; its lower row feeds the lower slot.
    let mut rows = vec![empty_row(5), empty_row(5)];
    for _ in 0..48 {
        rows.push(empty_row(5));
        rows.push(empty_row(5));
    }
    rows.push(empty_row(5));
    let mut lower = empty_row(5);
    lower[3] = text("CS (Лабораторные)\nTeacher2");
    lower[4] = text("Class2");
    rows.push(lower);
    let weeks = scan_body(&rows, 2, 1).unwrap();
    let class = weeks[0][6].lower_classes[6].as_ref().expect("slot must be filled");
    assert_eq!(class.name, "CS");
    assert_eq!(class.class_type, ClassType::Lab);
    assert_eq!(weeks[0][6].upper_classes[6], None);
    assert_eq!(weeks[0][0].upper_classes[0], None);
}

#[test]
fn scan_wrong_row_width_is_error() {
    // The first body row holds one cell after the lead-in instead of two.
    let rows = vec![empty_row(5), empty_row(5), empty_row(4), empty_row(5)];
    let err = scan_body(&rows, 2, 1).unwrap_err();
    assert_eq!(err, SheetError::RowColumnCountMismatch { row: 2, expected: 2, actual: 1 });
}

#[test]
fn scan_wrong_lower_row_width_is_error() {
    let rows = vec![empty_row(5), empty_row(5), empty_row(5), empty_row(9)];
    let err = scan_body(&rows, 2, 1).unwrap_err();
    assert_eq!(err, SheetError::RowColumnCountMismatch { row: 3, expected: 2, actual: 6 });
}

#[test]
fn scan_too_many_row_pairs_is_error() {
    let mut rows = vec![empty_row(5), empty_row(5)];
    for _ in 0..50 {
        rows.push(empty_row(5));
        rows.push(empty_row(5));
    }
    let err = scan_body(&rows, 2, 1).unwrap_err();
    assert_eq!(err, SheetError::TooManyRows { row_pairs: 50 });
}

#[test]
fn scan_final_unpaired_row_is_ignored() {
    // Three body rows: one pair and a trailing row of any width.
    let rows = vec![empty_row(5), empty_row(5), empty_row(5), empty_row(5), empty_row(100)];
    let weeks = scan_body(&rows, 2, 1).unwrap();
    assert_eq!(weeks.len(), 1);
}
