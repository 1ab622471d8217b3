use timetable::cell::Cell;
use timetable::model::{Class, ClassType};

fn text(s: &str) -> Cell {
    Cell::Text(s.to_string())
}

#[test]
fn parse_class_with_teacher() {
    let parsed = Class::new(&text("Math (Практические)\nTeacher"), &text("Class"));
    assert_eq!(
        parsed,
        Some(Class {
            name: String::from("Math"),
            class_type: ClassType::Practice,
            teacher: Some(String::from("Teacher")),
            room: String::from("Class"),
        })
    );
}

#[test]
fn parse_class_without_teacher() {
    let parsed = Class::new(&text("CS (Лабораторные)"), &text("Class2"));
    let parsed = parsed.expect("expected a class");
    assert_eq!(parsed.teacher, None);
    assert_eq!(parsed.name, "CS");
    assert_eq!(parsed.class_type, ClassType::Lab);
    assert_eq!(parsed.room, "Class2");
}

#[test]
fn parse_class_lection_label() {
    let parsed = Class::new(&text("History (Лекционные)\nSomeone"), &text("R1"));
    assert_eq!(parsed.unwrap().class_type, ClassType::Lection);
}

#[test]
fn parse_class_numeric_description_is_no_class() {
    assert_eq!(Class::new(&Cell::Number, &text("Room")), None);
    assert_eq!(Class::new(&Cell::Empty, &text("Room")), None);
    assert_eq!(Class::new(&Cell::Number, &Cell::Number), None);
}

#[test]
fn parse_class_numeric_room_is_no_class() {
    assert_eq!(Class::new(&text("Math (Практические)"), &Cell::Number), None);
    assert_eq!(Class::new(&text("Math (Практические)"), &Cell::Empty), None);
}

#[test]
fn parse_class_without_separator_is_no_class() {
    assert_eq!(Class::new(&text("Math"), &text("Room")), None);
    assert_eq!(Class::new(&text(""), &text("Room")), None);
}

#[test]
fn parse_class_without_closing_paren_is_no_class() {
    assert_eq!(Class::new(&text("Math (Практические"), &text("Room")), None);
}

#[test]
fn parse_class_unknown_label_kept_verbatim() {
    let parsed = Class::new(&text("Math (Seminar)"), &text("Room"));
    assert_eq!(parsed.unwrap().class_type, ClassType::Unknown(String::from("Seminar")));
}

#[test]
fn parse_class_blank_teacher_line_is_absent() {
    let parsed = Class::new(&text("Math (Практические)\n  "), &text("Room"));
    assert_eq!(parsed.unwrap().teacher, None);
    let parsed = Class::new(&text("Math (Практические)\n"), &text("Room"));
    assert_eq!(parsed.unwrap().teacher, None);
}

#[test]
fn parse_class_takes_first_separator() {
    let parsed = Class::new(&text("A (B (Лекционные)"), &text("R"));
    let parsed = parsed.unwrap();
    assert_eq!(parsed.name, "A");
    assert_eq!(parsed.class_type, ClassType::Unknown(String::from("B (Лекционные")));
}
