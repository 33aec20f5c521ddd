use studypilot::events::Entry;
use studypilot::import_events::{import_step, ImportReport, StatusChange};

fn info(e: &Entry) -> &str {
    match e {
        Entry::Info(s) => s,
        other => panic!("not info: {other:?}"),
    }
}

fn error(e: &Entry) -> &str {
    match e {
        Entry::Error(s) => s,
        other => panic!("not an error: {other:?}"),
    }
}

#[test]
fn import_report_lines() {
    let s = import_step(ImportReport::Started { total: 3, course: Some("rust".into()) });
    assert_eq!(info(&s.entry), "导入开始: 共 3 个文件 → 课程 rust");
    assert_eq!(s.status, StatusChange::Keep);
    assert_eq!(info(&import_step(ImportReport::Started { total: 1, course: None }).entry), "导入开始: 共 1 个文件");
    let s = import_step(ImportReport::FileStart { name: "a.md".into(), index: 2, total: 3 });
    assert_eq!(info(&s.entry), "[2/3] 导入: a.md");
    assert_eq!(s.status, StatusChange::Start);
    let s = import_step(ImportReport::FileProgress { name: "a.md".into(), phase_label: "抽取概念".into() });
    assert_eq!(info(&s.entry), "    ↳ a.md · 抽取概念");
    assert_eq!(s.status, StatusChange::Phase);
    let s = import_step(ImportReport::FileDone { name: "a.md".into(), concepts: 12 });
    assert_eq!(info(&s.entry), "  ✓ a.md → 12 个概念");
    assert_eq!(s.status, StatusChange::Clear);
    assert_eq!(info(&import_step(ImportReport::FileSkipped { name: "b.md".into(), at: None }).entry), "  ⊘ b.md（已存在，跳过）");
    assert_eq!(info(&import_step(ImportReport::FileSkipped { name: "b.md".into(), at: Some("空文件".into()) }).entry), "  ⊘ b.md（空文件）");
    assert_eq!(error(&import_step(ImportReport::ChunkFail { name: "c.md".into(), err: "磁盘满".into() }).entry), "  ⚠ c.md: 切片入库失败，该笔记暂不可检索: 磁盘满");
    assert_eq!(error(&import_step(ImportReport::FileFail { name: "c.md".into(), err: "坏文件".into() }).entry), "  ✗ c.md: 坏文件");
}

#[test]
fn import_end_refreshes_lists() {
    let s = import_step(ImportReport::Finished { ok: 2, skipped: 1, fail: 0 });
    assert_eq!(info(&s.entry), "导入完成: ✓ 2 新建 / ⊘ 1 跳过 / ✗ 0 失败");
    assert!(s.ended && s.refresh_courses && s.refresh_sessions_and_cost);
    let s = import_step(ImportReport::Cancelled);
    assert_eq!(info(&s.entry), "[导入已中断]");
    assert!(s.ended && s.refresh_courses && !s.refresh_sessions_and_cost);
    let s = import_step(ImportReport::FileDone { name: "x".into(), concepts: 0 });
    assert!(!s.ended && !s.refresh_courses);
}
