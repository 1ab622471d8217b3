use timetable::cell::Cell;
use timetable::errors::{ScheduleError, SheetError};
use timetable::model::{Class, ClassType, Course, Day, GroupInfo, Subgroup, WeekInfo};
use timetable::sheet::{ExcelData, Sheet};

fn text(s: &str) -> Cell {
    Cell::Text(s.to_string())
}

fn empty_row(len: usize) -> Vec<Cell> {
    vec![Cell::Empty; len]
}

/// A minimal well-formed sheet: one group without subgroups, no body rows.
fn trivial_sheet(name: &str, group: &str) -> Sheet {
    let mut rows = Vec::new();
    let mut row0 = empty_row(3);
    row0.push(text(group));
    rows.push(row0);
    rows.push(empty_row(3));
    Sheet { name: name.to_string(), rows }
}

/// The test workbook: sheet one holds one group "Group" with subgroups 1
/// and 2; only two cells are filled, the upper class of day 0, lesson 0 for
/// subgroup 1 and the lower class of day 6, lesson 6 for subgroup 2.
fn test_workbook() -> ExcelData {
    let mut rows: Vec<Vec<Cell>> = Vec::new();
    let mut row0 = empty_row(3);
    row0.push(text("Group"));
    rows.push(row0);
    let mut row1 = empty_row(3);
    row1.push(text("1"));
    row1.push(Cell::Empty);
    row1.push(text("2"));
    rows.push(row1);
    for pair in 0..49 {
        let mut upper = empty_row(7);
        let mut lower = empty_row(7);
        if pair == 0 {
            upper[3] = text("Math (Практические)\nTeacher");
            upper[4] = text("Class");
        }
        if pair == 48 {
            lower[5] = text("CS (Лабораторные)\nTeacher2");
            lower[6] = text("Class2");
        }
        rows.push(upper);
        rows.push(lower);
    }
    let first = Sheet { name: "Course".to_string(), rows };
    ExcelData::new(vec![
        first,
        trivial_sheet("Second", "G2"),
        trivial_sheet("Third", "G3"),
        trivial_sheet("Fourth", "G4"),
    ])
}

#[test]
fn test_excel_parsing() {
    let excel_data = test_workbook();
    let parsed = excel_data.parse().unwrap();
    println!("Parsed: {:?}", parsed);

    let parsed_course = &parsed[0];
    let parsed_group = &parsed_course.groups[0];
    let (parsed_subgroup, second_parsed_subgroup) =
        if let WeekInfo::WithSubgroups(subgroups) = &parsed_group.subgroups {
            (&subgroups[0], &subgroups[1])
        } else {
            panic!("Expected subgroups, got {:?}", parsed_group.subgroups);
        };
    let parsed_day = &parsed_subgroup.days[0];
    let parsed_upper_class = parsed_day.upper_classes[0]
        .as_ref()
        .expect("Expected a class");
    let parsed_lower_class = second_parsed_subgroup.days[6].lower_classes[6]
        .as_ref()
        .expect("Expected a class");

    let test_upper_class = Class {
        name: String::from("Math"),
        class_type: ClassType::Practice,
        teacher: Some(String::from("Teacher")),
        room: String::from("Class"),
    };
    let test_lower_class = Class {
        name: String::from("CS"),
        class_type: ClassType::Lab,
        teacher: Some(String::from("Teacher2")),
        room: String::from("Class2"),
    };
    let test_day = Day {
        upper_classes: vec![
            Some(test_upper_class.clone()),
            None,
            None,
            None,
            None,
            None,
            None,
        ],
        lower_classes: Day::default().lower_classes,
    };
    let test_second_day = Day {
        upper_classes: Day::default().upper_classes,
        lower_classes: vec![
            None,
            None,
            None,
            None,
            None,
            None,
            Some(test_lower_class.clone()),
        ],
    };
    let test_subgroup = Subgroup {
        number: 1,
        days: vec![
            test_day.clone(),
            Day::default(),
            Day::default(),
            Day::default(),
            Day::default(),
            Day::default(),
            Day::default(),
        ],
    };
    let test_second_subgroup = Subgroup {
        number: 2,
        days: vec![
            Day::default(),
            Day::default(),
            Day::default(),
            Day::default(),
            Day::default(),
            Day::default(),
            test_second_day,
        ],
    };
    let test_group = GroupInfo {
        name: String::from("Group"),
        subgroups: WeekInfo::WithSubgroups(vec![test_subgroup.clone(), test_second_subgroup]),
    };
    let test_course = Course {
        name: String::from("Course"),
        groups: vec![test_group.clone()],
    };

    assert_eq!(parsed_upper_class, &test_upper_class);
    assert_eq!(parsed_lower_class, &test_lower_class);
    assert_eq!(parsed_day, &test_day);
    assert_eq!(parsed_subgroup, &test_subgroup);
    assert_eq!(parsed_group, &test_group);
    assert_eq!(parsed_course, &test_course);
}

#[test]
fn three_sheets_is_wrong_count() {
    let data = ExcelData::new(vec![
        trivial_sheet("A", "G1"),
        trivial_sheet("B", "G2"),
        trivial_sheet("C", "G3"),
    ]);
    assert_eq!(data.parse(), Err(ScheduleError::WrongSheetCount { actual: 3 }));
}

#[test]
fn five_sheets_is_wrong_count() {
    let data = ExcelData::new(vec![
        trivial_sheet("A", "G1"),
        trivial_sheet("B", "G2"),
        trivial_sheet("C", "G3"),
        trivial_sheet("D", "G4"),
        trivial_sheet("E", "G5"),
    ]);
    assert_eq!(data.parse(), Err(ScheduleError::WrongSheetCount { actual: 5 }));
}

#[test]
fn malformed_sheet_is_reported_with_position() {
    let mut bad = trivial_sheet("Bad", "G3");
    bad.rows[1].push(Cell::Number);
    let data = ExcelData::new(vec![
        trivial_sheet("A", "G1"),
        trivial_sheet("B", "G2"),
        bad,
        trivial_sheet("D", "G4"),
    ]);
    assert_eq!(
        data.parse(),
        Err(ScheduleError::SheetFailed {
            sheet: 2,
            name: "Bad".to_string(),
            error: SheetError::CellTypeMismatch { row: 1, column: 3 },
        })
    );
}

#[test]
fn name_cluster_mismatch_is_reported() {
    // Two group names above a single cluster.
    let mut sheet = trivial_sheet("A", "G1");
    sheet.rows[0].push(text("G2"));
    let data = ExcelData::new(vec![
        sheet,
        trivial_sheet("B", "G2"),
        trivial_sheet("C", "G3"),
        trivial_sheet("D", "G4"),
    ]);
    assert_eq!(
        data.parse(),
        Err(ScheduleError::SheetFailed {
            sheet: 0,
            name: "A".to_string(),
            error: SheetError::GroupSubgroupCountMismatch { group_names: 2, clusters: 1 },
        })
    );
}

#[test]
fn sheet_without_rows_has_no_group_names() {
    // Both header rows read as empty: one implicit cluster, zero names.
    let sheet = Sheet { name: "E".to_string(), rows: Vec::new() };
    let err = timetable::sheet::parse_sheet(&sheet).unwrap_err();
    assert_eq!(err, SheetError::GroupSubgroupCountMismatch { group_names: 0, clusters: 1 });
}

#[test]
fn find_group_and_get_subgroup() {
    let parsed = test_workbook().parse().unwrap();
    let course = &parsed[0];
    let group = course.find_group("Group").expect("group must exist");
    assert_eq!(group.name, "Group");
    assert!(course.find_group("Nope").is_none());
    let sub = group.get_subgroup(2).expect("subgroup must exist");
    assert_eq!(sub.number, 2);
    assert!(group.get_subgroup(3).is_none());
    let second = &parsed[1];
    let no_subgroups = second.find_group("G2").unwrap();
    assert!(no_subgroups.get_subgroup(1).is_none());
}
