use studypilot::course_admin::{course_renamed, rename_course_target};
use studypilot::events::Entry;

fn courses() -> Vec<(i64, String)> {
    vec![(1, "数据结构".to_string()), (2, "操作系统".to_string())]
}

#[test]
fn only_a_listed_current_course_can_be_renamed() {
    assert_eq!(rename_course_target(&courses(), "操作系统", "OS"), Ok(2));
    assert_eq!(rename_course_target(&courses(), "操作系统", ""), Err("课程名不能为空".to_string()));
    assert_eq!(
        rename_course_target(&courses(), "all", "OS"),
        Err("当前没有可重命名的课程（all 区不可重命名）".to_string())
    );
    assert_eq!(
        rename_course_target(&courses(), "编译原理", "OS"),
        Err("当前没有可重命名的课程（all 区不可重命名）".to_string())
    );
}

#[test]
fn renaming_the_current_course_follows_it() {
    let mut list = courses();
    let mut current = "操作系统".to_string();
    let (e, refresh) = course_renamed(&mut list, &mut current, true, 2, "OS");
    assert!(matches!(&e, Entry::Info(s) if s == "课程已重命名为: OS"));
    assert!(refresh);
    assert_eq!(list, vec![(1, "数据结构".to_string()), (2, "OS".to_string())]);
    assert_eq!(current, "OS");
}

#[test]
fn renaming_another_course_keeps_the_current_one() {
    let mut list = courses();
    let mut current = "数据结构".to_string();
    course_renamed(&mut list, &mut current, true, 2, "OS");
    assert_eq!(current, "数据结构");
    assert_eq!(list[1].1, "OS");
}

#[test]
fn a_refused_rename_changes_nothing() {
    let mut list = courses();
    let mut current = "操作系统".to_string();
    let (e, refresh) = course_renamed(&mut list, &mut current, false, 2, "数据结构");
    assert!(matches!(&e, Entry::Error(s) if s == "重命名失败：课程不存在或名称重复"));
    assert!(!refresh);
    assert_eq!(list, courses());
    assert_eq!(current, "操作系统");
}
