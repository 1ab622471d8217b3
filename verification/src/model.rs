//! The schedule tree: course -> group -> (optionally) subgroup -> week of
//! seven days -> seven lesson slots per half-day.
//!
//! Every type has a mathematical view (`ClassV`, `DayV`, ...) that the
//! contracts of the parsing functions speak about, and a well-formedness
//! predicate fixing the shape invariants: exactly seven days to a week and
//! exactly seven upper and seven lower lesson slots to a day.

use vstd::prelude::*;

use crate::text::str_eq;

verus! {

/// Pedagogical category of a class, decoded from the label in parentheses
/// inside a description cell.
#[derive(Debug, Clone, PartialEq)]
pub enum ClassType {
    Lection,
    Practice,
    Lab,
    /// A label matching none of the three known ones, kept verbatim.
    Unknown(String),
}

/// One scheduled class occurrence.
#[derive(Debug, Clone, PartialEq)]
pub struct Class {
    pub name: String,
    pub class_type: ClassType,
    /// Absent when the description cell has no second line, or a blank one.
    pub teacher: Option<String>,
    pub room: String,
}

/// One calendar day's schedule for one week-column: seven upper and seven
/// lower lesson slots, index = lesson number.
#[derive(Debug, Clone, PartialEq)]
pub struct Day {
    pub upper_classes: Vec<Option<Class>>,
    pub lower_classes: Vec<Option<Class>>,
}

/// Seven consecutive days, Monday first.
pub type Week = Vec<Day>;

/// One numbered subgroup's week.
#[derive(Debug, Clone, PartialEq)]
pub struct Subgroup {
    pub number: u8,
    pub days: Week,
}

/// A group's schedule shape: either one week per subgroup, or a single week
/// for the whole group.
#[derive(Debug, Clone, PartialEq)]
pub enum WeekInfo {
    WithSubgroups(Vec<Subgroup>),
    WithoutSubgroup(Week),
}

/// A named student group.
#[derive(Debug, Clone, PartialEq)]
pub struct GroupInfo {
    pub name: String,
    pub subgroups: WeekInfo,
}

/// One sheet's worth of schedule: the sheet name and its groups in
/// left-to-right column order.
#[derive(Debug, Clone, PartialEq)]
pub struct Course {
    pub name: String,
    pub groups: Vec<GroupInfo>,
}

pub ghost enum ClassTypeV {
    Lection,
    Practice,
    Lab,
    Unknown(Seq<char>),
}

pub ghost struct ClassV {
    pub name: Seq<char>,
    pub class_type: ClassTypeV,
    pub teacher: Option<Seq<char>>,
    pub room: Seq<char>,
}

pub ghost struct DayV {
    pub upper_classes: Seq<Option<ClassV>>,
    pub lower_classes: Seq<Option<ClassV>>,
}

pub ghost struct SubgroupV {
    pub number: u8,
    pub days: Seq<DayV>,
}

pub ghost enum WeekInfoV {
    WithSubgroups(Seq<SubgroupV>),
    WithoutSubgroup(Seq<DayV>),
}

pub ghost struct GroupInfoV {
    pub name: Seq<char>,
    pub subgroups: WeekInfoV,
}

pub ghost struct CourseV {
    pub name: Seq<char>,
    pub groups: Seq<GroupInfoV>,
}

impl View for ClassType {
    type V = ClassTypeV;

    open spec fn view(&self) -> ClassTypeV {
        match self {
            ClassType::Lection => ClassTypeV::Lection,
            ClassType::Practice => ClassTypeV::Practice,
            ClassType::Lab => ClassTypeV::Lab,
            ClassType::Unknown(s) => ClassTypeV::Unknown(s@),
        }
    }
}

impl DeepView for ClassType {
    type V = ClassTypeV;

    open spec fn deep_view(&self) -> ClassTypeV {
        self.view()
    }
}

impl View for Class {
    type V = ClassV;

    open spec fn view(&self) -> ClassV {
        ClassV {
            name: self.name@,
            class_type: self.class_type@,
            teacher: match self.teacher {
                Some(t) => Some(t@),
                None => None,
            },
            room: self.room@,
        }
    }
}

impl DeepView for Class {
    type V = ClassV;

    open spec fn deep_view(&self) -> ClassV {
        self.view()
    }
}

impl View for Day {
    type V = DayV;

    open spec fn view(&self) -> DayV {
        DayV { upper_classes: self.upper_classes.deep_view(), lower_classes: self.lower_classes.deep_view() }
    }
}

impl DeepView for Day {
    type V = DayV;

    open spec fn deep_view(&self) -> DayV {
        self.view()
    }
}

impl View for Subgroup {
    type V = SubgroupV;

    open spec fn view(&self) -> SubgroupV {
        SubgroupV { number: self.number, days: self.days.deep_view() }
    }
}

impl DeepView for Subgroup {
    type V = SubgroupV;

    open spec fn deep_view(&self) -> SubgroupV {
        self.view()
    }
}

impl View for WeekInfo {
    type V = WeekInfoV;

    open spec fn view(&self) -> WeekInfoV {
        match self {
            WeekInfo::WithSubgroups(subgroups) => WeekInfoV::WithSubgroups(subgroups.deep_view()),
            WeekInfo::WithoutSubgroup(week) => WeekInfoV::WithoutSubgroup(week.deep_view()),
        }
    }
}

impl DeepView for WeekInfo {
    type V = WeekInfoV;

    open spec fn deep_view(&self) -> WeekInfoV {
        self.view()
    }
}

impl View for GroupInfo {
    type V = GroupInfoV;

    open spec fn view(&self) -> GroupInfoV {
        GroupInfoV { name: self.name@, subgroups: self.subgroups@ }
    }
}

impl DeepView for GroupInfo {
    type V = GroupInfoV;

    open spec fn deep_view(&self) -> GroupInfoV {
        self.view()
    }
}

impl View for Course {
    type V = CourseV;

    open spec fn view(&self) -> CourseV {
        CourseV { name: self.name@, groups: self.groups.deep_view() }
    }
}

impl DeepView for Course {
    type V = CourseV;

    open spec fn deep_view(&self) -> CourseV {
        self.view()
    }
}

/// A day holds exactly seven upper and seven lower lesson slots.
pub open spec fn day_wf(d: DayV) -> bool {
    d.upper_classes.len() == 7 && d.lower_classes.len() == 7
}

/// A week holds exactly seven well-formed days.
pub open spec fn week_wf(w: Seq<DayV>) -> bool {
    w.len() == 7 && forall|i: int| 0 <= i < w.len() ==> day_wf(#[trigger] w[i])
}

pub open spec fn subgroup_wf(s: SubgroupV) -> bool {
    week_wf(s.days)
}

/// `WithSubgroups` is never chosen empty.
pub open spec fn week_info_wf(w: WeekInfoV) -> bool {
    match w {
        WeekInfoV::WithSubgroups(subgroups) => subgroups.len() > 0 && forall|i: int|
            0 <= i < subgroups.len() ==> subgroup_wf(#[trigger] subgroups[i]),
        WeekInfoV::WithoutSubgroup(week) => week_wf(week),
    }
}

pub open spec fn group_wf(g: GroupInfoV) -> bool {
    week_info_wf(g.subgroups)
}

pub open spec fn course_wf(c: CourseV) -> bool {
    forall|i: int| 0 <= i < c.groups.len() ==> group_wf(#[trigger] c.groups[i])
}

/// The empty day: all fourteen slots unoccupied.
pub open spec fn empty_day() -> DayV {
    DayV {
        upper_classes: Seq::new(7, |i: int| None),
        lower_classes: Seq::new(7, |i: int| None),
    }
}

impl Default for Day {
    /// A day with no classes in any slot.
    fn default() -> (d: Day)
        ensures
            d@ == empty_day(),
    {
        let upper: Vec<Option<Class>> = vec![None, None, None, None, None, None, None];
        let lower: Vec<Option<Class>> = vec![None, None, None, None, None, None, None];
        let d = Day { upper_classes: upper, lower_classes: lower };
        proof {
            assert(d.upper_classes.deep_view() =~= empty_day().upper_classes);
            assert(d.lower_classes.deep_view() =~= empty_day().lower_classes);
        }
        d
    }
}

/// Index `i` points at the first subgroup of `ss` carrying `num`.
pub open spec fn first_with_number(ss: Seq<Subgroup>, num: u8, i: int) -> bool {
    0 <= i < ss.len() && ss[i].number == num && forall|j: int|
        0 <= j < i ==> (#[trigger] ss[j]).number != num
}

/// Index `i` points at the first group of `gs` named `name`.
pub open spec fn first_with_name(gs: Seq<GroupInfo>, name: Seq<char>, i: int) -> bool {
    0 <= i < gs.len() && gs[i].name@ == name && forall|j: int|
        0 <= j < i ==> (#[trigger] gs[j]).name@ != name
}

impl GroupInfo {
    /// The first subgroup carrying `subgroup_number`, if this group has
    /// subgroups and one of them carries it.
    pub fn get_subgroup(&self, subgroup_number: u8) -> (r: Option<&Subgroup>)
        ensures
            r matches Some(s) ==> (self.subgroups matches WeekInfo::WithSubgroups(subgroups)
                && exists|i: int|
                #[trigger] first_with_number(subgroups@, subgroup_number, i) && *s
                    == subgroups@[i]),
            r is None ==> match self.subgroups {
                WeekInfo::WithSubgroups(subgroups) => forall|i: int|
                    0 <= i < subgroups.len() ==> (#[trigger] subgroups@[i]).number
                        != subgroup_number,
                WeekInfo::WithoutSubgroup(_) => true,
            },
    {
        match &self.subgroups {
            WeekInfo::WithSubgroups(subgroups) => {
                let n = subgroups.len();
                let mut i: usize = 0;
                while i < n
                    invariant
                        i <= n,
                        n == subgroups.len(),
                        self.subgroups == WeekInfo::WithSubgroups(*subgroups),
                        forall|j: int| 0 <= j < i ==> (#[trigger] subgroups@[j]).number
                            != subgroup_number,
                    decreases n - i,
                {
                    if subgroups[i].number == subgroup_number {
                        let out: &Subgroup = &subgroups[i];
                        proof {
                            assert(*out == subgroups@[i as int]);
                            assert(first_with_number(subgroups@, subgroup_number, i as int));
                            assert(self.subgroups matches WeekInfo::WithSubgroups(ss)
                                && ss == *subgroups);
                            assert(exists|k: int|
                                #[trigger] first_with_number(subgroups@, subgroup_number, k)
                                    && *out == subgroups@[k]);
                        }
                        return Some(out);
                    }
                    i += 1;
                }
                None
            },
            WeekInfo::WithoutSubgroup(_) => None,
        }
    }
}

impl Course {
    pub fn new(name: String, groups: Vec<GroupInfo>) -> (r: Course)
        ensures
            r.name == name,
            r.groups == groups,
    {
        Course { name, groups }
    }

    /// The first group named `group_name`, if any.
    pub fn find_group(&self, group_name: &str) -> (r: Option<&GroupInfo>)
        ensures
            match r {
                Some(g) => exists|i: int|
                    first_with_name(self.groups@, group_name@, i) && *g == self.groups@[i],
                None => forall|i: int|
                    0 <= i < self.groups.len() ==> (#[trigger] self.groups@[i]).name@
                        != group_name@,
            },
    {
        let n = self.groups.len();
        let mut i: usize = 0;
        while i < n
            invariant
                i <= n,
                n == self.groups.len(),
                forall|j: int| 0 <= j < i ==> (#[trigger] self.groups@[j]).name@ != group_name@,
            decreases n - i,
        {
            if str_eq(self.groups[i].name.as_str(), group_name) {
                proof {
                    assert(first_with_name(self.groups@, group_name@, i as int));
                }
                return Some(&self.groups[i]);
            }
            i += 1;
        }
        None
    }
}

} // verus!
