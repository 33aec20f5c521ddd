//! Renaming the current course: which course the request names, and how
//! the answer of the store changes the course list and the current course.
use vstd::prelude::*;
use crate::events::{Entry, EntryView};
use crate::navigation::{course_id_spec, course_label, current_course_id, label_spec};
use crate::text::{chars_of, str_eq};

verus! {

/// The course that `/course -rename <new_name>` renames: the current one,
/// which must be a listed course (not the global scope); the new name
/// must not be empty.
pub fn rename_course_target(courses: &[(i64, String)], course: &str, new_name: &str) -> (r: Result<i64, String>)
    ensures
        new_name@.len() == 0 ==> (r matches Err(m) && m@ == "课程名不能为空"@),
        new_name@.len() > 0 ==> match course_id_spec(courses@, course@) {
            Some(id) => r == Ok::<i64, String>(id),
            None => r matches Err(m) && m@ == "当前没有可重命名的课程（all 区不可重命名）"@,
        },
{
    if chars_of(new_name).len() == 0 {
        return Err("课程名不能为空".to_string());
    }
    match current_course_id(courses, course) {
        Some(id) => Ok(id),
        None => Err("当前没有可重命名的课程（all 区不可重命名）".to_string()),
    }
}

/// `new` is `old` after course `id` took the name `name`.
pub open spec fn renamed_course(old: (i64, String), new: (i64, String), id: i64, name: Seq<char>) -> bool {
    &&& new.0 == old.0
    &&& new.1@ == (if old.0 == id {
        name
    } else {
        old.1@
    })
}

/// The store answered the rename of course `id` to `new_name`: on success
/// every listed course with that id takes the name, and the current course
/// follows when it was that course; the report, and whether the course
/// list is refreshed.
pub fn course_renamed(
    courses: &mut Vec<(i64, String)>,
    course: &mut String,
    ok: bool,
    id: i64,
    new_name: &str,
) -> (r: (Entry, bool))
    ensures
        !ok ==> {
            &&& r.0@ == EntryView::Error("重命名失败：课程不存在或名称重复"@)
            &&& !r.1
            &&& final(courses)@ == old(courses)@
            &&& final(course)@ == old(course)@
        },
        ok ==> {
            &&& r.0@ == EntryView::Info("课程已重命名为: "@ + new_name@)
            &&& r.1
            &&& final(courses)@.len() == old(courses)@.len()
            &&& forall|k: int|
                0 <= k < old(courses)@.len() ==> renamed_course(
                    #[trigger] old(courses)@[k],
                    final(courses)@[k],
                    id,
                    new_name@,
                )
            &&& final(course)@ == (if old(course)@ == label_spec(old(courses)@, Some(id)) {
                new_name@
            } else {
                old(course)@
            })
        },
{
    if !ok {
        return (Entry::Error("重命名失败：课程不存在或名称重复".to_string()), false);
    }
    let label = course_label(courses.as_slice(), Some(id));
    let was_current = str_eq(course.as_str(), label.as_str());
    let mut renamed: Vec<(i64, String)> = Vec::new();
    let mut k: usize = 0;
    while k < courses.len()
        invariant
            k <= courses@.len(),
            renamed@.len() == k,
            forall|j: int| 0 <= j < k ==> renamed_course(#[trigger] courses@[j], renamed@[j], id, new_name@),
        decreases courses.len() - k,
    {
        let cid = courses[k].0;
        let name = if cid == id {
            new_name.to_string()
        } else {
            courses[k].1.clone()
        };
        renamed.push((cid, name));
        k = k + 1;
    }
    *courses = renamed;
    if was_current {
        *course = new_name.to_string();
    }
    let mut m = "课程已重命名为: ".to_string();
    m.push_str(new_name);
    (Entry::Info(m), true)
}

} // verus!
