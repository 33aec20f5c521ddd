//! `/delete` and `/move` of notes: what the flags ask for, and the chat line
//! that reports how the store answered.
use vstd::prelude::*;
use crate::events::{Entry, EntryView};
use crate::navigation::{course_index_by_name, ALL_COURSES};
use crate::palette::{signed_decimal, signed_decimal_string};
use crate::text::{chars_of, parse_i64, parse_i64_spec, str_eq, trim, trim_str};

verus! {

/// Usage line of `/delete`.
pub const DELETE_USAGE: &'static str = "用法: /delete --id <笔记 id> 或 /delete --course <课程名>";

/// Usage line of `/move`.
pub const MOVE_USAGE: &'static str = "用法: /move --id <笔记 id> --course <目标课程名>";

/// The value of an `--id` flag: the trimmed text read as an `i64`.
pub fn id_flag_value(value: &str) -> (r: Option<i64>)
    ensures
        r == parse_i64_spec(trim(value@)),
{
    let t = trim_str(value);
    let cs = chars_of(t.as_str());
    parse_i64(cs.as_slice())
}

/// The id of the first course named `name`.
pub open spec fn course_id_named(courses: Seq<(i64, String)>, name: Seq<char>) -> Option<i64> {
    match course_index_by_name(courses, name, 0) {
        Some(k) => Some(courses[k].0),
        None => None,
    }
}

pub(crate) fn find_course_id(courses: &[(i64, String)], name: &str) -> (r: Option<i64>)
    ensures
        r == course_id_named(courses@, name@),
{
    let mut i: usize = 0;
    while i < courses.len()
        invariant
            i <= courses.len(),
            course_index_by_name(courses@, name@, 0) == course_index_by_name(courses@, name@, i as int),
        decreases courses.len() - i,
    {
        if str_eq(courses[i].1.as_str(), name) {
            assert(course_index_by_name(courses@, name@, i as int) == Some(i as int));
            return Some(courses[i].0);
        }
        i = i + 1;
    }
    None
}

/// What `/delete` does.
#[derive(Debug, Clone)]
pub enum DeletePlan {
    /// Nothing is deleted; the message says why.
    Refused(String),
    /// Delete one note; `desc` names it in the report.
    Note { id: i64, desc: String },
    /// Delete every note of a course; `desc` names it in the report.
    Course { id: i64, desc: String },
}

/// `/delete` with the values of its `--id` and `--course` flags: exactly
/// one of them; a course must be named (not `all`) and exist.
pub fn delete_plan(id: Option<i64>, course: Option<String>, courses: &[(i64, String)]) -> (r: DeletePlan)
    ensures
        match (id, course) {
            (Some(_), Some(_)) => r matches DeletePlan::Refused(m) && m@ == "--id 与 --course 只能二选一"@,
            (None, None) => r matches DeletePlan::Refused(m) && m@ == DELETE_USAGE@,
            (Some(i), None) => r matches DeletePlan::Note { id: x, desc } && x == i && desc@ == "笔记 #"@
                + signed_decimal(i as int),
            (None, Some(n)) => {
                let t = trim(n@);
                if t.len() == 0 || t == ALL_COURSES@ {
                    r matches DeletePlan::Refused(m) && m@ == "--course 不能为空或 all"@
                } else {
                    match course_id_named(courses@, t) {
                        None => r matches DeletePlan::Refused(m) && m@ == "课程 `"@ + t + "` 不存在"@,
                        Some(cid) => r matches DeletePlan::Course { id: x, desc } && x == cid && desc@
                            == "课程 "@ + t,
                    }
                }
            },
        },
{
    match (id, course) {
        (Some(_), Some(_)) => DeletePlan::Refused("--id 与 --course 只能二选一".to_string()),
        (None, None) => DeletePlan::Refused(DELETE_USAGE.to_string()),
        (Some(i), None) => {
            let mut desc = "笔记 #".to_string();
            desc.push_str(signed_decimal_string(i).as_str());
            DeletePlan::Note { id: i, desc }
        },
        (None, Some(n)) => {
            let t = trim_str(n.as_str());
            let tc = chars_of(t.as_str());
            if tc.len() == 0 || str_eq(t.as_str(), ALL_COURSES) {
                return DeletePlan::Refused("--course 不能为空或 all".to_string());
            }
            match find_course_id(courses, t.as_str()) {
                None => {
                    let mut m = "课程 `".to_string();
                    m.push_str(t.as_str());
                    m.push_str("` 不存在");
                    DeletePlan::Refused(m)
                },
                Some(cid) => {
                    let mut desc = "课程 ".to_string();
                    desc.push_str(t.as_str());
                    DeletePlan::Course { id: cid, desc }
                },
            }
        },
    }
}

/// What `/move` does.
#[derive(Debug, Clone)]
pub enum MovePlan {
    /// Nothing moves; the message says why.
    Refused(String),
    /// Move note `id` to course `target` (`None`: the global scope).
    Move { id: i64, target: Option<i64>, desc: String },
}

/// `/move` with the values of its `--id` and `--course` flags: both are
/// needed; the target is `all` (the global scope) or an existing course.
pub fn move_plan(id: Option<i64>, target: Option<String>, courses: &[(i64, String)]) -> (r: MovePlan)
    ensures
        match (id, target) {
            (Some(i), Some(t)) => {
                let desc = "笔记 #"@ + signed_decimal(i as int) + " → "@ + t@;
                if t@ == ALL_COURSES@ {
                    r matches MovePlan::Move { id: x, target: None, desc: d } && x == i && d@ == desc
                } else {
                    match course_id_named(courses@, t@) {
                        Some(cid) => r matches MovePlan::Move { id: x, target: Some(c), desc: d } && x == i && c
                            == cid && d@ == desc,
                        None => r matches MovePlan::Refused(m) && m@ == "课程 `"@ + t@ + "` 不存在。可用: /course -new "@
                            + t@ + " 新建"@,
                    }
                }
            },
            _ => r matches MovePlan::Refused(m) && m@ == MOVE_USAGE@,
        },
{
    let (i, t) = match (id, target) {
        (Some(i), Some(t)) => (i, t),
        _ => {
            return MovePlan::Refused(MOVE_USAGE.to_string());
        },
    };
    let mut desc = "笔记 #".to_string();
    desc.push_str(signed_decimal_string(i).as_str());
    desc.push_str(" → ");
    desc.push_str(t.as_str());
    if str_eq(t.as_str(), ALL_COURSES) {
        return MovePlan::Move { id: i, target: None, desc };
    }
    match find_course_id(courses, t.as_str()) {
        Some(cid) => MovePlan::Move { id: i, target: Some(cid), desc },
        None => {
            let mut m = "课程 `".to_string();
            m.push_str(t.as_str());
            m.push_str("` 不存在。可用: /course -new ");
            m.push_str(t.as_str());
            m.push_str(" 新建");
            MovePlan::Refused(m)
        },
    }
}

/// The report of a deletion of `desc`, and whether the course list is
/// refreshed (only after something was deleted).
pub fn deleted_report(result: Result<bool, String>, desc: &str) -> (r: (Entry, bool))
    ensures
        match result {
            Ok(true) => r.0@ == EntryView::Info("已删除: "@ + desc@) && r.1,
            Ok(false) => r.0@ == EntryView::Error(desc@ + " 不存在或已删除"@) && !r.1,
            Err(e) => r.0@ == EntryView::Error("删除失败: "@ + e@) && !r.1,
        },
{
    match result {
        Ok(true) => {
            let mut m = "已删除: ".to_string();
            m.push_str(desc);
            (Entry::Info(m), true)
        },
        Ok(false) => {
            let mut m = desc.to_string();
            m.push_str(" 不存在或已删除");
            (Entry::Error(m), false)
        },
        Err(e) => {
            let mut m = "删除失败: ".to_string();
            m.push_str(e.as_str());
            (Entry::Error(m), false)
        },
    }
}

/// The report of a move of `desc`, and whether the course list is
/// refreshed (only after the note moved).
pub fn moved_report(result: Result<bool, String>, desc: &str) -> (r: (Entry, bool))
    ensures
        match result {
            Ok(true) => r.0@ == EntryView::Info("已移动: "@ + desc@) && r.1,
            Ok(false) => r.0@ == EntryView::Error(desc@ + " 不存在"@) && !r.1,
            Err(e) => r.0@ == EntryView::Error("移动失败: "@ + e@) && !r.1,
        },
{
    match result {
        Ok(true) => {
            let mut m = "已移动: ".to_string();
            m.push_str(desc);
            (Entry::Info(m), true)
        },
        Ok(false) => {
            let mut m = desc.to_string();
            m.push_str(" 不存在");
            (Entry::Error(m), false)
        },
        Err(e) => {
            let mut m = "移动失败: ".to_string();
            m.push_str(e.as_str());
            (Entry::Error(m), false)
        },
    }
}

/// The report of a batch action of a browser (notes or sessions) over
/// `scope`; the course list is refreshed either way.
pub fn action_done_report(scope: &str, result: Result<String, String>) -> (r: Entry)
    ensures
        match result {
            Ok(m) => r@ == EntryView::Info("✓ "@ + m@ + "（范围："@ + scope@ + "）"@),
            Err(e) => r@ == EntryView::Error("批量操作失败: "@ + e@),
        },
{
    match result {
        Ok(m) => {
            let mut s = "✓ ".to_string();
            s.push_str(m.as_str());
            s.push_str("（范围：");
            s.push_str(scope);
            s.push_str("）");
            Entry::Info(s)
        },
        Err(e) => {
            let mut s = "批量操作失败: ".to_string();
            s.push_str(e.as_str());
            Entry::Error(s)
        },
    }
}

} // verus!
