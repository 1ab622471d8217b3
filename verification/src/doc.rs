//! Serialization of the schedule tree to a plain structured document.
//!
//! [`Doc`] is the JSON-compatible document shape (objects, arrays, strings,
//! numbers, null) the tree is stored and exchanged in.  Each type of the
//! model has an encoder and a decoder; the encoder's contract states the
//! round trip: decoding what it produced yields the value it was given.

use vstd::prelude::*;

use crate::model::{
    course_wf, day_wf, group_wf, subgroup_wf, week_info_wf, week_wf, Class, ClassType, ClassTypeV,
    ClassV, Course, CourseV, Day, DayV, GroupInfo, GroupInfoV, Subgroup, SubgroupV, Week, WeekInfo,
    WeekInfoV,
};
use crate::text::str_eq;

verus! {

broadcast use vstd::string::group_string_axioms;

/// A plain structured document: what the schedule tree is serialized to.
#[derive(Debug, PartialEq)]
pub enum Doc {
    Null,
    Int(u64),
    Str(String),
    Arr(Vec<Doc>),
    Obj(Vec<(String, Doc)>),
}

/// The class type a document encodes: one of three fixed strings, or a
/// one-entry object carrying an unrecognised label verbatim.
pub open spec fn class_type_of_doc(d: Doc) -> Option<ClassTypeV> {
    match d {
        Doc::Str(s) => if s@ == "Lection"@ {
            Some(ClassTypeV::Lection)
        } else if s@ == "Practice"@ {
            Some(ClassTypeV::Practice)
        } else if s@ == "Lab"@ {
            Some(ClassTypeV::Lab)
        } else {
            None
        },
        Doc::Obj(f) => if f@.len() == 1 && f@[0].0@ == "Unknown"@ {
            match f@[0].1 {
                Doc::Str(u) => Some(ClassTypeV::Unknown(u@)),
                _ => None,
            }
        } else {
            None
        },
        _ => None,
    }
}

/// The class a document encodes.
pub open spec fn class_of_doc(d: Doc) -> Option<ClassV> {
    match d {
        Doc::Obj(f) => if f@.len() == 4 && f@[0].0@ == "name"@ && f@[1].0@ == "type"@ && f@[2].0@
            == "teacher"@ && f@[3].0@ == "room"@ {
            match (f@[0].1, f@[2].1, f@[3].1) {
                (Doc::Str(name), Doc::Null, Doc::Str(room)) => match class_type_of_doc(f@[1].1) {
                    Some(ct) => Some(
                        ClassV { name: name@, class_type: ct, teacher: None, room: room@ },
                    ),
                    None => None,
                },
                (Doc::Str(name), Doc::Str(teacher), Doc::Str(room)) => match class_type_of_doc(
                    f@[1].1,
                ) {
                    Some(ct) => Some(
                        ClassV {
                            name: name@,
                            class_type: ct,
                            teacher: Some(teacher@),
                            room: room@,
                        },
                    ),
                    None => None,
                },
                _ => None,
            }
        } else {
            None
        },
        _ => None,
    }
}

/// The lesson slot a document encodes: null for an empty slot.
pub open spec fn slot_of_doc(d: Doc) -> Option<Option<ClassV>> {
    match d {
        Doc::Null => Some(None),
        _ => match class_of_doc(d) {
            Some(c) => Some(Some(c)),
            None => None,
        },
    }
}

/// The seven lesson slots a document encodes.
pub open spec fn slots_of_doc(d: Doc) -> Option<Seq<Option<ClassV>>> {
    match d {
        Doc::Arr(v) => if v@.len() == 7 && (forall|i: int|
            0 <= i < 7 ==> slot_of_doc(#[trigger] v@[i]) is Some) {
            Some(Seq::new(7, |i: int| slot_of_doc(v@[i])->Some_0))
        } else {
            None
        },
        _ => None,
    }
}

/// The day a document encodes.
pub open spec fn day_of_doc(d: Doc) -> Option<DayV> {
    match d {
        Doc::Obj(f) => if f@.len() == 2 && f@[0].0@ == "upper_classes"@ && f@[1].0@
            == "lower_classes"@ {
            match (slots_of_doc(f@[0].1), slots_of_doc(f@[1].1)) {
                (Some(upper), Some(lower)) => Some(
                    DayV { upper_classes: upper, lower_classes: lower },
                ),
                _ => None,
            }
        } else {
            None
        },
        _ => None,
    }
}

/// The week a document encodes: exactly seven days.
pub open spec fn week_of_doc(d: Doc) -> Option<Seq<DayV>> {
    match d {
        Doc::Arr(v) => if v@.len() == 7 && (forall|i: int|
            0 <= i < 7 ==> day_of_doc(#[trigger] v@[i]) is Some) {
            Some(Seq::new(7, |i: int| day_of_doc(v@[i])->Some_0))
        } else {
            None
        },
        _ => None,
    }
}

/// The subgroup a document encodes.
pub open spec fn subgroup_of_doc(d: Doc) -> Option<SubgroupV> {
    match d {
        Doc::Obj(f) => if f@.len() == 2 && f@[0].0@ == "number"@ && f@[1].0@ == "days"@ {
            match f@[0].1 {
                Doc::Int(v) => if v <= 255 {
                    match week_of_doc(f@[1].1) {
                        Some(days) => Some(SubgroupV { number: v as u8, days }),
                        None => None,
                    }
                } else {
                    None
                },
                _ => None,
            }
        } else {
            None
        },
        _ => None,
    }
}

/// The week info a document encodes: a one-entry object tagged with the
/// variant name.
pub open spec fn week_info_of_doc(d: Doc) -> Option<WeekInfoV> {
    match d {
        Doc::Obj(f) => if f@.len() == 1 && f@[0].0@ == "WithSubgroups"@ {
            match f@[0].1 {
                Doc::Arr(v) => if forall|i: int|
                    0 <= i < v@.len() ==> subgroup_of_doc(#[trigger] v@[i]) is Some {
                    Some(
                        WeekInfoV::WithSubgroups(
                            Seq::new(v@.len(), |i: int| subgroup_of_doc(v@[i])->Some_0),
                        ),
                    )
                } else {
                    None
                },
                _ => None,
            }
        } else if f@.len() == 1 && f@[0].0@ == "WithoutSubgroup"@ {
            match week_of_doc(f@[0].1) {
                Some(week) => Some(WeekInfoV::WithoutSubgroup(week)),
                None => None,
            }
        } else {
            None
        },
        _ => None,
    }
}

/// The group a document encodes.
pub open spec fn group_of_doc(d: Doc) -> Option<GroupInfoV> {
    match d {
        Doc::Obj(f) => if f@.len() == 2 && f@[0].0@ == "name"@ && f@[1].0@ == "subgroups"@ {
            match f@[0].1 {
                Doc::Str(name) => match week_info_of_doc(f@[1].1) {
                    Some(subgroups) => Some(GroupInfoV { name: name@, subgroups }),
                    None => None,
                },
                _ => None,
            }
        } else {
            None
        },
        _ => None,
    }
}

/// The course a document encodes.
pub open spec fn course_of_doc(d: Doc) -> Option<CourseV> {
    match d {
        Doc::Obj(f) => if f@.len() == 2 && f@[0].0@ == "name"@ && f@[1].0@ == "groups"@ {
            match (f@[0].1, f@[1].1) {
                (Doc::Str(name), Doc::Arr(v)) => if forall|i: int|
                    0 <= i < v@.len() ==> group_of_doc(#[trigger] v@[i]) is Some {
                    Some(
                        CourseV {
                            name: name@,
                            groups: Seq::new(v@.len(), |i: int| group_of_doc(v@[i])->Some_0),
                        },
                    )
                } else {
                    None
                },
                _ => None,
            }
        } else {
            None
        },
        _ => None,
    }
}

impl ClassType {
    /// Serializes this class type; decoding the result yields it back.
    pub fn to_doc(&self) -> (r: Doc)
        ensures
            class_type_of_doc(r) == Some(self@),
    {
        proof {
            reveal_strlit("Lection");
            reveal_strlit("Practice");
            reveal_strlit("Lab");
            assert("Lection"@.len() == 7);
            assert("Practice"@.len() == 8);
            assert("Lab"@.len() == 3);
        }
        match self {
            ClassType::Lection => Doc::Str(String::from_str("Lection")),
            ClassType::Practice => Doc::Str(String::from_str("Practice")),
            ClassType::Lab => Doc::Str(String::from_str("Lab")),
            ClassType::Unknown(label) => {
                let mut f: Vec<(String, Doc)> = Vec::new();
                f.push((String::from_str("Unknown"), Doc::Str(label.clone())));
                Doc::Obj(f)
            },
        }
    }

    /// Decodes a class type; `None` when the document has another shape.
    pub fn from_doc(d: &Doc) -> (r: Option<ClassType>)
        ensures
            match r {
                Some(ct) => class_type_of_doc(*d) == Some(ct@),
                None => class_type_of_doc(*d) is None,
            },
    {
        match d {
            Doc::Str(s) => {
                if str_eq(s.as_str(), "Lection") {
                    Some(ClassType::Lection)
                } else if str_eq(s.as_str(), "Practice") {
                    Some(ClassType::Practice)
                } else if str_eq(s.as_str(), "Lab") {
                    Some(ClassType::Lab)
                } else {
                    None
                }
            },
            Doc::Obj(f) => {
                if f.len() == 1 && str_eq(f[0].0.as_str(), "Unknown") {
                    match &f[0].1 {
                        Doc::Str(u) => Some(ClassType::Unknown(u.clone())),
                        _ => None,
                    }
                } else {
                    None
                }
            },
            _ => None,
        }
    }
}

impl Class {
    /// Serializes this class; decoding the result yields it back.
    pub fn to_doc(&self) -> (r: Doc)
        ensures
            class_of_doc(r) == Some(self@),
    {
        let mut f: Vec<(String, Doc)> = Vec::new();
        f.push((String::from_str("name"), Doc::Str(self.name.clone())));
        f.push((String::from_str("type"), self.class_type.to_doc()));
        let teacher_doc = match &self.teacher {
            Some(t) => Doc::Str(t.clone()),
            None => Doc::Null,
        };
        f.push((String::from_str("teacher"), teacher_doc));
        f.push((String::from_str("room"), Doc::Str(self.room.clone())));
        Doc::Obj(f)
    }

    /// Decodes a class; `None` when the document has another shape.
    pub fn from_doc(d: &Doc) -> (r: Option<Class>)
        ensures
            match r {
                Some(c) => class_of_doc(*d) == Some(c@),
                None => class_of_doc(*d) is None,
            },
    {
        match d {
            Doc::Obj(f) => {
                if f.len() == 4 && str_eq(f[0].0.as_str(), "name") && str_eq(
                    f[1].0.as_str(),
                    "type",
                ) && str_eq(f[2].0.as_str(), "teacher") && str_eq(f[3].0.as_str(), "room") {
                    let name = match &f[0].1 {
                        Doc::Str(n) => n.clone(),
                        _ => {
                            return None;
                        },
                    };
                    let class_type = match ClassType::from_doc(&f[1].1) {
                        Some(ct) => ct,
                        None => {
                            return None;
                        },
                    };
                    let teacher = match &f[2].1 {
                        Doc::Null => None,
                        Doc::Str(t) => Some(t.clone()),
                        _ => {
                            return None;
                        },
                    };
                    let room = match &f[3].1 {
                        Doc::Str(ro) => ro.clone(),
                        _ => {
                            return None;
                        },
                    };
                    Some(Class { name, class_type, teacher, room })
                } else {
                    None
                }
            },
            _ => None,
        }
    }
}

/// Serializes one lesson slot: null for an empty slot.
pub fn slot_to_doc(slot: &Option<Class>) -> (r: Doc)
    ensures
        slot_of_doc(r) == Some(slot.deep_view()),
{
    match slot {
        Some(c) => c.to_doc(),
        None => Doc::Null,
    }
}

/// Decodes one lesson slot.
pub fn slot_from_doc(d: &Doc) -> (r: Option<Option<Class>>)
    ensures
        match r {
            Some(slot) => slot_of_doc(*d) == Some(slot.deep_view()),
            None => slot_of_doc(*d) is None,
        },
{
    match d {
        Doc::Null => Some(None),
        _ => match Class::from_doc(d) {
            Some(c) => Some(Some(c)),
            None => None,
        },
    }
}

/// Serializes the seven slots of one half-day.
pub fn slots_to_doc(slots: &Vec<Option<Class>>) -> (r: Doc)
    requires
        slots.deep_view().len() == 7,
    ensures
        slots_of_doc(r) == Some(slots.deep_view()),
{
    let mut v: Vec<Doc> = Vec::new();
    let mut i: usize = 0;
    while i < 7
        invariant
            slots.deep_view().len() == 7,
            i <= 7,
            v@.len() == i,
            forall|j: int| 0 <= j < i ==> slot_of_doc(#[trigger] v@[j]) == Some(
                slots.deep_view()[j],
            ),
        decreases 7 - i,
    {
        v.push(slot_to_doc(&slots[i]));
        i += 1;
    }
    let r = Doc::Arr(v);
    proof {
        assert(Seq::new(7, |j: int| slot_of_doc(v@[j])->Some_0) =~= slots.deep_view());
    }
    r
}

/// Decodes the seven slots of one half-day.
pub fn slots_from_doc(d: &Doc) -> (r: Option<Vec<Option<Class>>>)
    ensures
        match r {
            Some(slots) => slots_of_doc(*d) == Some(slots.deep_view()),
            None => slots_of_doc(*d) is None,
        },
{
    match d {
        Doc::Arr(v) => {
            if v.len() != 7 {
                return None;
            }
            let mut out: Vec<Option<Class>> = Vec::new();
            let mut i: usize = 0;
            while i < 7
                invariant
                    *d == Doc::Arr(*v),
                    v@.len() == 7,
                    i <= 7,
                    out.deep_view().len() == i,
                    forall|j: int| 0 <= j < i ==> slot_of_doc(#[trigger] v@[j]) == Some(
                        out.deep_view()[j],
                    ),
                decreases 7 - i,
            {
                let ghost old_out = out.deep_view();
                match slot_from_doc(&v[i]) {
                    Some(slot) => {
                        let ghost slotv = slot.deep_view();
                        out.push(slot);
                        proof {
                            assert(out.deep_view() =~= old_out.push(slotv));
                        }
                    },
                    None => {
                        return None;
                    },
                }
                i += 1;
            }
            proof {
                assert(Seq::new(7, |j: int| slot_of_doc(v@[j])->Some_0) =~= out.deep_view());
            }
            Some(out)
        },
        _ => None,
    }
}

impl Day {
    /// Serializes this day; decoding the result yields it back.
    pub fn to_doc(&self) -> (r: Doc)
        requires
            day_wf(self@),
        ensures
            day_of_doc(r) == Some(self@),
    {
        let mut f: Vec<(String, Doc)> = Vec::new();
        f.push((String::from_str("upper_classes"), slots_to_doc(&self.upper_classes)));
        f.push((String::from_str("lower_classes"), slots_to_doc(&self.lower_classes)));
        Doc::Obj(f)
    }

    /// Decodes a day; `None` when the document has another shape.
    pub fn from_doc(d: &Doc) -> (r: Option<Day>)
        ensures
            match r {
                Some(day) => day_of_doc(*d) == Some(day@),
                None => day_of_doc(*d) is None,
            },
    {
        match d {
            Doc::Obj(f) => {
                if f.len() == 2 && str_eq(f[0].0.as_str(), "upper_classes") && str_eq(
                    f[1].0.as_str(),
                    "lower_classes",
                ) {
                    let upper = match slots_from_doc(&f[0].1) {
                        Some(u) => u,
                        None => {
                            return None;
                        },
                    };
                    let lower = match slots_from_doc(&f[1].1) {
                        Some(l) => l,
                        None => {
                            return None;
                        },
                    };
                    Some(Day { upper_classes: upper, lower_classes: lower })
                } else {
                    None
                }
            },
            _ => None,
        }
    }
}

/// Serializes a week of seven days.
pub fn week_to_doc(week: &Week) -> (r: Doc)
    requires
        week_wf(week.deep_view()),
    ensures
        week_of_doc(r) == Some(week.deep_view()),
{
    let mut v: Vec<Doc> = Vec::new();
    let mut i: usize = 0;
    while i < 7
        invariant
            week_wf(week.deep_view()),
            i <= 7,
            v@.len() == i,
            forall|j: int| 0 <= j < i ==> day_of_doc(#[trigger] v@[j]) == Some(
                week.deep_view()[j],
            ),
        decreases 7 - i,
    {
        proof {
            assert(week.deep_view()[i as int] == week@[i as int]@);
        }
        v.push(week[i].to_doc());
        i += 1;
    }
    let r = Doc::Arr(v);
    proof {
        assert(Seq::new(7, |j: int| day_of_doc(v@[j])->Some_0) =~= week.deep_view());
    }
    r
}

/// Decodes a week of seven days.
pub fn week_from_doc(d: &Doc) -> (r: Option<Week>)
    ensures
        match r {
            Some(week) => week_of_doc(*d) == Some(week.deep_view()),
            None => week_of_doc(*d) is None,
        },
{
    match d {
        Doc::Arr(v) => {
            if v.len() != 7 {
                return None;
            }
            let mut out: Vec<Day> = Vec::new();
            let mut i: usize = 0;
            while i < 7
                invariant
                    *d == Doc::Arr(*v),
                    v@.len() == 7,
                    i <= 7,
                    out.deep_view().len() == i,
                    forall|j: int| 0 <= j < i ==> day_of_doc(#[trigger] v@[j]) == Some(
                        out.deep_view()[j],
                    ),
                decreases 7 - i,
            {
                let ghost old_out = out.deep_view();
                match Day::from_doc(&v[i]) {
                    Some(day) => {
                        let ghost dayv = day.deep_view();
                        out.push(day);
                        proof {
                            assert(out.deep_view() =~= old_out.push(dayv));
                        }
                    },
                    None => {
                        return None;
                    },
                }
                i += 1;
            }
            proof {
                assert(Seq::new(7, |j: int| day_of_doc(v@[j])->Some_0) =~= out.deep_view());
            }
            Some(out)
        },
        _ => None,
    }
}

impl Subgroup {
    /// Serializes this subgroup; decoding the result yields it back.
    pub fn to_doc(&self) -> (r: Doc)
        requires
            subgroup_wf(self@),
        ensures
            subgroup_of_doc(r) == Some(self@),
    {
        let mut f: Vec<(String, Doc)> = Vec::new();
        f.push((String::from_str("number"), Doc::Int(self.number as u64)));
        f.push((String::from_str("days"), week_to_doc(&self.days)));
        Doc::Obj(f)
    }

    /// Decodes a subgroup; `None` when the document has another shape.
    pub fn from_doc(d: &Doc) -> (r: Option<Subgroup>)
        ensures
            match r {
                Some(s) => subgroup_of_doc(*d) == Some(s@),
                None => subgroup_of_doc(*d) is None,
            },
    {
        match d {
            Doc::Obj(f) => {
                if f.len() == 2 && str_eq(f[0].0.as_str(), "number") && str_eq(
                    f[1].0.as_str(),
                    "days",
                ) {
                    let number = match &f[0].1 {
                        Doc::Int(v) => {
                            if *v <= 255 {
                                *v as u8
                            } else {
                                return None;
                            }
                        },
                        _ => {
                            return None;
                        },
                    };
                    match week_from_doc(&f[1].1) {
                        Some(days) => Some(Subgroup { number, days }),
                        None => None,
                    }
                } else {
                    None
                }
            },
            _ => None,
        }
    }
}

impl WeekInfo {
    /// Serializes this week info; decoding the result yields it back.
    pub fn to_doc(&self) -> (r: Doc)
        requires
            week_info_wf(self@),
        ensures
            week_info_of_doc(r) == Some(self@),
    {
        proof {
            reveal_strlit("WithSubgroups");
            reveal_strlit("WithoutSubgroup");
            assert("WithSubgroups"@.len() == 13);
            assert("WithoutSubgroup"@.len() == 15);
        }
        match self {
            WeekInfo::WithSubgroups(subgroups) => {
                let mut v: Vec<Doc> = Vec::new();
                let mut i: usize = 0;
                let n = subgroups.len();
                while i < n
                    invariant
                        week_info_wf(WeekInfoV::WithSubgroups(subgroups.deep_view())),
                        n == subgroups.len(),
                        i <= n,
                        v@.len() == i,
                        forall|j: int| 0 <= j < i ==> subgroup_of_doc(#[trigger] v@[j]) == Some(
                            subgroups.deep_view()[j],
                        ),
                    decreases n - i,
                {
                    proof {
                        assert(subgroup_wf(subgroups.deep_view()[i as int]));
                        assert(subgroups.deep_view()[i as int] == subgroups@[i as int]@);
                    }
                    v.push(subgroups[i].to_doc());
                    i += 1;
                }
                proof {
                    assert(forall|j: int| 0 <= j < v@.len() ==> subgroup_of_doc(
                        #[trigger] v@[j],
                    ) is Some);
                    assert(Seq::new(v@.len(), |j: int| subgroup_of_doc(v@[j])->Some_0)
                        =~= subgroups.deep_view());
                }
                let mut f: Vec<(String, Doc)> = Vec::new();
                f.push((String::from_str("WithSubgroups"), Doc::Arr(v)));
                let r = Doc::Obj(f);
                r
            },
            WeekInfo::WithoutSubgroup(week) => {
                let mut f: Vec<(String, Doc)> = Vec::new();
                f.push((String::from_str("WithoutSubgroup"), week_to_doc(week)));
                Doc::Obj(f)
            },
        }
    }

    /// Decodes a week info; `None` when the document has another shape.
    pub fn from_doc(d: &Doc) -> (r: Option<WeekInfo>)
        ensures
            match r {
                Some(w) => week_info_of_doc(*d) == Some(w@),
                None => week_info_of_doc(*d) is None,
            },
    {
        match d {
            Doc::Obj(f) => {
                if f.len() == 1 && str_eq(f[0].0.as_str(), "WithSubgroups") {
                    match &f[0].1 {
                        Doc::Arr(v) => {
                            let n = v.len();
                            let mut out: Vec<Subgroup> = Vec::new();
                            let mut i: usize = 0;
                            while i < n
                                invariant
                                    *d == Doc::Obj(*f),
                                    f@.len() == 1,
                                    f@[0].0@ == "WithSubgroups"@,
                                    f@[0].1 == Doc::Arr(*v),
                                    n == v@.len(),
                                    i <= n,
                                    out.deep_view().len() == i,
                                    forall|j: int| 0 <= j < i ==> subgroup_of_doc(
                                        #[trigger] v@[j],
                                    ) == Some(out.deep_view()[j]),
                                decreases n - i,
                            {
                                let ghost old_out = out.deep_view();
                                match Subgroup::from_doc(&v[i]) {
                                    Some(s) => {
                                        let ghost sv = s.deep_view();
                                        out.push(s);
                                        proof {
                                            assert(out.deep_view() =~= old_out.push(sv));
                                        }
                                    },
                                    None => {
                                        return None;
                                    },
                                }
                                i += 1;
                            }
                            proof {
                                assert(Seq::new(v@.len(), |j: int| subgroup_of_doc(v@[j])->Some_0)
                                    =~= out.deep_view());
                            }
                            Some(WeekInfo::WithSubgroups(out))
                        },
                        _ => None,
                    }
                } else if f.len() == 1 && str_eq(f[0].0.as_str(), "WithoutSubgroup") {
                    match week_from_doc(&f[0].1) {
                        Some(week) => Some(WeekInfo::WithoutSubgroup(week)),
                        None => None,
                    }
                } else {
                    None
                }
            },
            _ => None,
        }
    }
}

impl GroupInfo {
    /// Serializes this group; decoding the result yields it back.
    pub fn to_doc(&self) -> (r: Doc)
        requires
            group_wf(self@),
        ensures
            group_of_doc(r) == Some(self@),
    {
        let mut f: Vec<(String, Doc)> = Vec::new();
        f.push((String::from_str("name"), Doc::Str(self.name.clone())));
        f.push((String::from_str("subgroups"), self.subgroups.to_doc()));
        Doc::Obj(f)
    }

    /// Decodes a group; `None` when the document has another shape.
    pub fn from_doc(d: &Doc) -> (r: Option<GroupInfo>)
        ensures
            match r {
                Some(g) => group_of_doc(*d) == Some(g@),
                None => group_of_doc(*d) is None,
            },
    {
        match d {
            Doc::Obj(f) => {
                if f.len() == 2 && str_eq(f[0].0.as_str(), "name") && str_eq(
                    f[1].0.as_str(),
                    "subgroups",
                ) {
                    let name = match &f[0].1 {
                        Doc::Str(n) => n.clone(),
                        _ => {
                            return None;
                        },
                    };
                    match WeekInfo::from_doc(&f[1].1) {
                        Some(subgroups) => Some(GroupInfo { name, subgroups }),
                        None => None,
                    }
                } else {
                    None
                }
            },
            _ => None,
        }
    }
}

impl Course {
    /// Serializes this course; decoding the result yields it back.
    ///
    /// This contract is the round trip of the whole tree: together with
    /// [`Course::from_doc`], decoding the produced document gives a course
    /// with the same value.
    pub fn to_doc(&self) -> (r: Doc)
        requires
            course_wf(self@),
        ensures
            course_of_doc(r) == Some(self@),
    {
        let mut v: Vec<Doc> = Vec::new();
        let mut i: usize = 0;
        let n = self.groups.len();
        while i < n
            invariant
                course_wf(self@),
                n == self.groups.len(),
                i <= n,
                v@.len() == i,
                forall|j: int| 0 <= j < i ==> group_of_doc(#[trigger] v@[j]) == Some(
                    self.groups.deep_view()[j],
                ),
            decreases n - i,
        {
            proof {
                assert(group_wf(self@.groups[i as int]));
                assert(self.groups.deep_view()[i as int] == self.groups@[i as int]@);
            }
            v.push(self.groups[i].to_doc());
            i += 1;
        }
        let mut f: Vec<(String, Doc)> = Vec::new();
        f.push((String::from_str("name"), Doc::Str(self.name.clone())));
        f.push((String::from_str("groups"), Doc::Arr(v)));
        let r = Doc::Obj(f);
        proof {
            assert(Seq::new(v@.len(), |j: int| group_of_doc(v@[j])->Some_0)
                =~= self.groups.deep_view());
        }
        r
    }

    /// Decodes a course; `None` when the document has another shape.
    pub fn from_doc(d: &Doc) -> (r: Option<Course>)
        ensures
            match r {
                Some(c) => course_of_doc(*d) == Some(c@),
                None => course_of_doc(*d) is None,
            },
    {
        match d {
            Doc::Obj(f) => {
                if f.len() == 2 && str_eq(f[0].0.as_str(), "name") && str_eq(
                    f[1].0.as_str(),
                    "groups",
                ) {
                    let name = match &f[0].1 {
                        Doc::Str(n) => n.clone(),
                        _ => {
                            return None;
                        },
                    };
                    match &f[1].1 {
                        Doc::Arr(v) => {
                            let n = v.len();
                            let mut out: Vec<GroupInfo> = Vec::new();
                            let mut i: usize = 0;
                            while i < n
                                invariant
                                    *d == Doc::Obj(*f),
                                    f@.len() == 2,
                                    f@[0].0@ == "name"@,
                                    f@[1].0@ == "groups"@,
                                    f@[0].1 is Str,
                                    f@[1].1 == Doc::Arr(*v),
                                    n == v@.len(),
                                    i <= n,
                                    out.deep_view().len() == i,
                                    forall|j: int| 0 <= j < i ==> group_of_doc(#[trigger] v@[j])
                                        == Some(out.deep_view()[j]),
                                decreases n - i,
                            {
                                let ghost old_out = out.deep_view();
                                match GroupInfo::from_doc(&v[i]) {
                                    Some(g) => {
                                        let ghost gv = g.deep_view();
                                        out.push(g);
                                        proof {
                                            assert(out.deep_view() =~= old_out.push(gv));
                                        }
                                    },
                                    None => {
                                        return None;
                                    },
                                }
                                i += 1;
                            }
                            proof {
                                assert(Seq::new(v@.len(), |j: int| group_of_doc(v@[j])->Some_0)
                                    =~= out.deep_view());
                            }
                            Some(Course { name, groups: out })
                        },
                        _ => None,
                    }
                } else {
                    None
                }
            },
            _ => None,
        }
    }
}

} // verus!