use timetable::alisa::InputType;
use timetable::doc::Doc;
use timetable::model::{Class, ClassType, Course, Day, GroupInfo, Subgroup, WeekInfo};

fn sample_class() -> Class {
    Class {
        name: "Math".to_string(),
        class_type: ClassType::Practice,
        teacher: Some("Teacher".to_string()),
        room: "Class".to_string(),
    }
}

fn sample_course() -> Course {
    let mut day = Day::default();
    day.upper_classes[0] = Some(sample_class());
    day.lower_classes[6] = Some(Class {
        name: "CS".to_string(),
        class_type: ClassType::Unknown("Seminar".to_string()),
        teacher: None,
        room: "Lab 2".to_string(),
    });
    let week = vec![
        day,
        Day::default(),
        Day::default(),
        Day::default(),
        Day::default(),
        Day::default(),
        Day::default(),
    ];
    let with_subgroups = GroupInfo {
        name: "G1".to_string(),
        subgroups: WeekInfo::WithSubgroups(vec![
            Subgroup { number: 1, days: week.clone() },
            Subgroup { number: 2, days: vec![Day::default(); 7] },
        ]),
    };
    let without = GroupInfo {
        name: "G2".to_string(),
        subgroups: WeekInfo::WithoutSubgroup(vec![Day::default(); 7]),
    };
    Course { name: "Course".to_string(), groups: vec![with_subgroups, without] }
}

#[test]
fn course_round_trip() {
    let course = sample_course();
    let doc = course.to_doc();
    let decoded = Course::from_doc(&doc).expect("decoding what was encoded must succeed");
    assert_eq!(decoded, course);
}

#[test]
fn class_round_trip() {
    let class = sample_class();
    let decoded = Class::from_doc(&class.to_doc());
    assert_eq!(decoded, Some(class));
}

#[test]
fn class_type_round_trip_keeps_unknown_apart() {
    // An unknown label spelled like a known variant name must survive.
    for ct in [
        ClassType::Lection,
        ClassType::Practice,
        ClassType::Lab,
        ClassType::Unknown("Seminar".to_string()),
        ClassType::Unknown("Lection".to_string()),
    ] {
        assert_eq!(ClassType::from_doc(&ct.to_doc()), Some(ct));
    }
}

#[test]
fn day_round_trip() {
    let mut day = Day::default();
    day.lower_classes[3] = Some(sample_class());
    assert_eq!(Day::from_doc(&day.to_doc()), Some(day));
}

#[test]
fn group_levels_round_trip() {
    let course = sample_course();
    for group in &course.groups {
        assert_eq!(GroupInfo::from_doc(&group.to_doc()).as_ref(), Some(group));
        assert_eq!(WeekInfo::from_doc(&group.subgroups.to_doc()).as_ref(), Some(&group.subgroups));
        if let WeekInfo::WithSubgroups(subgroups) = &group.subgroups {
            for sub in subgroups {
                assert_eq!(Subgroup::from_doc(&sub.to_doc()).as_ref(), Some(sub));
            }
        }
    }
}

#[test]
fn decoder_rejects_other_shapes() {
    assert_eq!(Course::from_doc(&Doc::Int(5)), None);
    assert_eq!(Class::from_doc(&Doc::Str("Math".to_string())), None);
    assert_eq!(Day::from_doc(&Doc::Arr(Vec::new())), None);
    // A week must hold exactly seven days.
    assert_eq!(
        timetable::doc::week_from_doc(&Doc::Arr(vec![Doc::Null, Doc::Null])),
        None
    );
    // Null is the encoding of an empty slot, not a rejection.
    assert_eq!(timetable::doc::slot_from_doc(&Doc::Null), Some(None));
}

#[test]
fn input_type_variants_compare() {
    let a = InputType::SimpleUtterance;
    assert_eq!(a.clone(), InputType::SimpleUtterance);
    assert_ne!(a, InputType::ButtonPressed);
    assert_ne!(InputType::PlaybackStarted, InputType::PlaybackFinished);
}
