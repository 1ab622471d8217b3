//! The grammar of a single class-description cell.
//!
//! A slot is described by two cells.  The description cell reads
//! `"<name> (<label>)"`, optionally followed by a newline and a teacher
//! name; the room cell holds the room verbatim.  A cell pair that does not
//! fit this shape (either cell non-text, no `" ("` separator, no closing
//! parenthesis) is the normal encoding of an empty slot, not an error.

use vstd::prelude::*;

use crate::cell::{Cell, CellV};
use crate::model::{Class, ClassType, ClassTypeV, ClassV};
use crate::text::{is_blank, is_blank_str, str_eq};

verus! {

/// Index of the first occurrence of the two-character separator `" ("` at or
/// after position `i`.
pub open spec fn first_sep_from(s: Seq<char>, i: int) -> Option<int>
    decreases s.len() - i,
{
    if i < 0 || i + 1 >= s.len() {
        None
    } else if s[i] == ' ' && s[i + 1] == '(' {
        Some(i)
    } else {
        first_sep_from(s, i + 1)
    }
}

/// Index of the first newline at or after position `i`.
pub open spec fn first_nl_from(s: Seq<char>, i: int) -> Option<int>
    decreases s.len() - i,
{
    if i < 0 || i >= s.len() {
        None
    } else if s[i] == '\n' {
        Some(i)
    } else {
        first_nl_from(s, i + 1)
    }
}

/// The class type a parenthesised label denotes; labels other than the three
/// known ones are kept verbatim.
pub open spec fn label_type(label: Seq<char>) -> ClassTypeV {
    if label == "Лекционные"@ {
        ClassTypeV::Lection
    } else if label == "Практические"@ {
        ClassTypeV::Practice
    } else if label == "Лабораторные"@ {
        ClassTypeV::Lab
    } else {
        ClassTypeV::Unknown(label)
    }
}

/// What parsing the text of a description cell yields: the class name, the
/// class type, and an optional teacher.
///
/// The text is split at the first `" ("`; the right part is split at the
/// first newline into the label part and the teacher, a blank teacher counts
/// as absent; the label part must end in `')'`.
pub open spec fn parse_desc(s: Seq<char>) -> Option<(Seq<char>, ClassTypeV, Option<Seq<char>>)> {
    match first_sep_from(s, 0) {
        None => None,
        Some(i) => {
            let name = s.subrange(0, i);
            let rest = s.subrange(i + 2, s.len() as int);
            let tlp = match first_nl_from(rest, 0) {
                None => rest,
                Some(j) => rest.subrange(0, j),
            };
            let teacher = match first_nl_from(rest, 0) {
                None => None,
                Some(j) => {
                    let t = rest.subrange(j + 1, rest.len() as int);
                    if is_blank(t) {
                        None
                    } else {
                        Some(t)
                    }
                },
            };
            if tlp.len() > 0 && tlp[tlp.len() - 1] == ')' {
                Some((name, label_type(tlp.subrange(0, tlp.len() - 1)), teacher))
            } else {
                None
            }
        },
    }
}

/// What parsing a (description, room) cell pair yields: `None` is the
/// regular encoding of an empty slot.
pub open spec fn parse_class_spec(desc: CellV, room: CellV) -> Option<ClassV> {
    match (desc, room) {
        (CellV::Text(s), CellV::Text(r)) => match parse_desc(s) {
            Some((name, class_type, teacher)) => Some(
                ClassV { name, class_type, teacher, room: r },
            ),
            None => None,
        },
        _ => None,
    }
}

proof fn lemma_first_sep_none(s: Seq<char>, i: int)
    requires
        0 <= i,
        forall|j: int| i <= j < s.len() - 1 ==> !((#[trigger] s[j]) == ' ' && s[j + 1] == '('),
    ensures
        first_sep_from(s, i) is None,
    decreases s.len() - i,
{
    if i + 1 < s.len() {
        lemma_first_sep_none(s, i + 1);
    }
}

proof fn lemma_first_sep_some(s: Seq<char>, i: int, k: int)
    requires
        0 <= i <= k,
        k + 1 < s.len(),
        s[k] == ' ' && s[k + 1] == '(',
        forall|j: int| i <= j < k ==> !((#[trigger] s[j]) == ' ' && s[j + 1] == '('),
    ensures
        first_sep_from(s, i) == Some(k),
    decreases k - i,
{
    if i < k {
        lemma_first_sep_some(s, i + 1, k);
    }
}

proof fn lemma_first_nl_none(s: Seq<char>, i: int)
    requires
        0 <= i,
        forall|j: int| i <= j < s.len() ==> s[j] != '\n',
    ensures
        first_nl_from(s, i) is None,
    decreases s.len() - i,
{
    if i < s.len() {
        lemma_first_nl_none(s, i + 1);
    }
}

proof fn lemma_first_nl_some(s: Seq<char>, i: int, k: int)
    requires
        0 <= i <= k < s.len(),
        s[k] == '\n',
        forall|j: int| i <= j < k ==> s[j] != '\n',
    ensures
        first_nl_from(s, i) == Some(k),
    decreases k - i,
{
    if i < k {
        lemma_first_nl_some(s, i + 1, k);
    }
}

/// Finds the first `" ("` separator in `s`.
fn find_sep(s: &str) -> (r: Option<usize>)
    ensures
        match r {
            Some(i) => first_sep_from(s@, 0) == Some(i as int) && i + 1 < s@.len(),
            None => first_sep_from(s@, 0) is None,
        },
{
    let n = s.unicode_len();
    if n < 2 {
        proof {
            lemma_first_sep_none(s@, 0);
        }
        return None;
    }
    let mut i: usize = 0;
    while i < n - 1
        invariant
            2 <= n,
            i <= n - 1,
            n == s@.len(),
            forall|j: int| 0 <= j < i ==> !((#[trigger] s@[j]) == ' ' && s@[j + 1] == '('),
        decreases n - i,
    {
        if s.get_char(i) == ' ' && s.get_char(i + 1) == '(' {
            proof {
                lemma_first_sep_some(s@, 0, i as int);
            }
            return Some(i);
        }
        i += 1;
    }
    proof {
        lemma_first_sep_none(s@, 0);
    }
    None
}

/// Finds the first newline in `s`.
fn find_nl(s: &str) -> (r: Option<usize>)
    ensures
        match r {
            Some(i) => first_nl_from(s@, 0) == Some(i as int) && i < s@.len(),
            None => first_nl_from(s@, 0) is None,
        },
{
    let n = s.unicode_len();
    let mut i: usize = 0;
    while i < n
        invariant
            i <= n,
            n == s@.len(),
            forall|j: int| 0 <= j < i ==> s@[j] != '\n',
        decreases n - i,
    {
        if s.get_char(i) == '\n' {
            proof {
                lemma_first_nl_some(s@, 0, i as int);
            }
            return Some(i);
        }
        i += 1;
    }
    proof {
        lemma_first_nl_none(s@, 0);
    }
    None
}

impl Class {
    /// Reads one slot from its description cell and its room cell.
    ///
    /// `None` is the regular encoding of an empty slot: it is produced
    /// whenever either cell is not text or the description does not fit the
    /// grammar.
    pub fn new(name_and_teacher: &Cell, room: &Cell) -> (r: Option<Class>)
        ensures
            r.deep_view() == parse_class_spec(name_and_teacher@, room@),
    {
        let desc: &String = match name_and_teacher {
            Cell::Text(s) => s,
            _ => {
                return None;
            },
        };
        let room_text: &String = match room {
            Cell::Text(s) => s,
            _ => {
                return None;
            },
        };
        let st = desc.as_str();
        let n = st.unicode_len();
        let sep = match find_sep(st) {
            Some(i) => i,
            None => {
                return None;
            },
        };
        let name_str = st.substring_char(0, sep);
        let rest = st.substring_char(sep + 2, n);
        let rest_len = rest.unicode_len();
        let (tlp, teacher): (&str, Option<String>) = match find_nl(rest) {
            None => (rest, None),
            Some(j) => {
                let t = rest.substring_char(j + 1, rest_len);
                let tl = rest.substring_char(0, j);
                if is_blank_str(t) {
                    (tl, None)
                } else {
                    (tl, Some(t.to_owned()))
                }
            },
        };
        let tlp_len = tlp.unicode_len();
        if tlp_len == 0 {
            return None;
        }
        if tlp.get_char(tlp_len - 1) != ')' {
            return None;
        }
        let label = tlp.substring_char(0, tlp_len - 1);
        let class_type = if str_eq(label, "Лекционные") {
            ClassType::Lection
        } else if str_eq(label, "Практические") {
            ClassType::Practice
        } else if str_eq(label, "Лабораторные") {
            ClassType::Lab
        } else {
            ClassType::Unknown(label.to_owned())
        };
        Some(Class { name: name_str.to_owned(), class_type, teacher, room: room_text.clone() })
    }
}

} // verus!
