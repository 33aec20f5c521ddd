use studypilot::events::Entry;
use studypilot::note_admin::{
    action_done_report, delete_plan, deleted_report, id_flag_value, move_plan, moved_report, DeletePlan, MovePlan,
    DELETE_USAGE, MOVE_USAGE,
};

fn courses() -> Vec<(i64, String)> {
    vec![(1, "数据结构".to_string()), (2, "操作系统".to_string())]
}

fn refused(p: &DeletePlan) -> String {
    match p {
        DeletePlan::Refused(m) => m.clone(),
        other => panic!("not refused: {other:?}"),
    }
}

#[test]
fn id_flag_values_are_trimmed_integers() {
    assert_eq!(id_flag_value(" 42 "), Some(42));
    assert_eq!(id_flag_value("-7"), Some(-7));
    assert_eq!(id_flag_value("+3"), Some(3));
    assert_eq!(id_flag_value("4x"), None);
    assert_eq!(id_flag_value(""), None);
}

#[test]
fn delete_needs_exactly_one_flag() {
    assert_eq!(refused(&delete_plan(Some(1), Some("数据结构".into()), &courses())), "--id 与 --course 只能二选一");
    assert_eq!(refused(&delete_plan(None, None, &courses())), DELETE_USAGE);
}

#[test]
fn delete_by_id_names_the_note() {
    match delete_plan(Some(17), None, &courses()) {
        DeletePlan::Note { id, desc } => {
            assert_eq!(id, 17);
            assert_eq!(desc, "笔记 #17");
        }
        other => panic!("{other:?}"),
    }
}

#[test]
fn delete_by_course_finds_the_course() {
    match delete_plan(None, Some("  操作系统 ".into()), &courses()) {
        DeletePlan::Course { id, desc } => {
            assert_eq!(id, 2);
            assert_eq!(desc, "课程 操作系统");
        }
        other => panic!("{other:?}"),
    }
    assert_eq!(refused(&delete_plan(None, Some("编译原理".into()), &courses())), "课程 `编译原理` 不存在");
    assert_eq!(refused(&delete_plan(None, Some("all".into()), &courses())), "--course 不能为空或 all");
    assert_eq!(refused(&delete_plan(None, Some("   ".into()), &courses())), "--course 不能为空或 all");
}

#[test]
fn move_to_a_course_or_to_all() {
    match move_plan(Some(5), Some("数据结构".into()), &courses()) {
        MovePlan::Move { id, target, desc } => {
            assert_eq!((id, target), (5, Some(1)));
            assert_eq!(desc, "笔记 #5 → 数据结构");
        }
        other => panic!("{other:?}"),
    }
    match move_plan(Some(5), Some("all".into()), &courses()) {
        MovePlan::Move { id, target, desc } => {
            assert_eq!((id, target), (5, None));
            assert_eq!(desc, "笔记 #5 → all");
        }
        other => panic!("{other:?}"),
    }
}

#[test]
fn move_refusals() {
    match move_plan(Some(5), Some("编译原理".into()), &courses()) {
        MovePlan::Refused(m) => assert_eq!(m, "课程 `编译原理` 不存在。可用: /course -new 编译原理 新建"),
        other => panic!("{other:?}"),
    }
    match move_plan(None, Some("数据结构".into()), &courses()) {
        MovePlan::Refused(m) => assert_eq!(m, MOVE_USAGE),
        other => panic!("{other:?}"),
    }
    match move_plan(Some(5), None, &courses()) {
        MovePlan::Refused(m) => assert_eq!(m, MOVE_USAGE),
        other => panic!("{other:?}"),
    }
}

fn text(e: &Entry) -> String {
    match e {
        Entry::Info(s) => format!("info:{s}"),
        Entry::Error(s) => format!("error:{s}"),
        other => format!("{other:?}"),
    }
}

#[test]
fn deletion_and_move_reports() {
    let (e, refresh) = deleted_report(Ok(true), "笔记 #3");
    assert_eq!((text(&e), refresh), ("info:已删除: 笔记 #3".to_string(), true));
    let (e, refresh) = deleted_report(Ok(false), "笔记 #3");
    assert_eq!((text(&e), refresh), ("error:笔记 #3 不存在或已删除".to_string(), false));
    let (e, refresh) = deleted_report(Err("locked".into()), "笔记 #3");
    assert_eq!((text(&e), refresh), ("error:删除失败: locked".to_string(), false));
    let (e, refresh) = moved_report(Ok(true), "笔记 #3 → all");
    assert_eq!((text(&e), refresh), ("info:已移动: 笔记 #3 → all".to_string(), true));
    let (e, refresh) = moved_report(Ok(false), "笔记 #3 → all");
    assert_eq!((text(&e), refresh), ("error:笔记 #3 → all 不存在".to_string(), false));
    let (e, _) = moved_report(Err("io".into()), "x");
    assert_eq!(text(&e), "error:移动失败: io");
}

#[test]
fn batch_action_reports_carry_the_scope() {
    assert_eq!(text(&action_done_report("会话", Ok("会话 #4 已重命名".into()))), "info:✓ 会话 #4 已重命名（范围：会话）");
    assert_eq!(text(&action_done_report("课程 A", Err("boom".into()))), "error:批量操作失败: boom");
}
