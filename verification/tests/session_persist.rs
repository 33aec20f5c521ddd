use studypilot::events::Entry;
use studypilot::refs::{ChatMessage, MessageRole};
use studypilot::session_persist::{title_renamed_report, PersistStep, SessionPersistence};

fn user(text: &str) -> ChatMessage {
    ChatMessage { role: MessageRole::User, content: Some(text.to_string()) }
}

fn courses() -> Vec<(i64, String)> {
    vec![(4, "数据结构".to_string()), (9, "操作系统".to_string())]
}

fn contents(ms: &[ChatMessage]) -> Vec<String> {
    ms.iter().map(|m| m.content.clone().unwrap_or_default()).collect()
}

#[test]
fn first_message_asks_for_a_session_and_later_ones_wait() {
    let mut p = SessionPersistence::NoSession;
    match p.persist(user("什么是哈希表？请详细解释它的冲突处理方法。"), &courses(), "操作系统") {
        PersistStep::Create { title, course_id } => {
            assert_eq!(title, "什么是哈希表？请详细解释它的冲突处理方法");
            assert_eq!(title.chars().count(), 20);
            assert_eq!(course_id, Some(9));
        }
        other => panic!("{other:?}"),
    }
    assert!(matches!(p.persist(user("二"), &courses(), "操作系统"), PersistStep::Buffered));
    assert!(matches!(p.persist(user("三"), &courses(), "操作系统"), PersistStep::Buffered));
    assert_eq!(p.ready_id(), None);
    let waiting = p.on_ready(31);
    assert_eq!(contents(&waiting), vec!["什么是哈希表？请详细解释它的冲突处理方法。", "二", "三"]);
    assert_eq!(p.ready_id(), Some(31));
    match p.persist(user("四"), &courses(), "操作系统") {
        PersistStep::Send { id, msg } => {
            assert_eq!(id, 31);
            assert_eq!(msg.content.as_deref(), Some("四"));
        }
        other => panic!("{other:?}"),
    }
    assert!(p.on_ready(32).is_empty());
    assert_eq!(p.ready_id(), Some(31));
}

#[test]
fn session_titles_without_text_or_course() {
    let mut p = SessionPersistence::NoSession;
    let empty = ChatMessage { role: MessageRole::Assistant, content: None };
    match p.persist(empty, &courses(), "all") {
        PersistStep::Create { title, course_id } => {
            assert_eq!(title, "(空)");
            assert_eq!(course_id, None);
        }
        other => panic!("{other:?}"),
    }
}

#[test]
fn failed_creation_reports_the_waiting_messages_and_starts_over() {
    let mut p = SessionPersistence::NoSession;
    p.persist(user("一"), &courses(), "数据结构");
    p.persist(user("二"), &courses(), "数据结构");
    assert_eq!(
        p.on_create_failed("disk full"),
        Some("会话创建失败: disk full\n本次的 2 条消息仅保存在内存会话中，不会持久化；可 /new 后重新发送重试".to_string())
    );
    assert!(matches!(p, SessionPersistence::NoSession));
    assert_eq!(p.on_create_failed("again"), None);
    assert!(matches!(p.persist(user("三"), &courses(), "数据结构"), PersistStep::Create { .. }));
    assert!(p.on_ready(5).len() == 1);
    assert_eq!(p.on_create_failed("late"), None);
    assert_eq!(p.ready_id(), Some(5));
}

#[test]
fn renaming_needs_a_title_and_a_stored_session() {
    let p = SessionPersistence::NoSession;
    assert_eq!(p.rename_target(""), Err("用法: /rename <新标题>".to_string()));
    assert_eq!(p.rename_target("栈"), Err("当前会话尚未持久化，发一条消息后再改名".to_string()));
    let p = SessionPersistence::Ready { id: 8 };
    assert_eq!(p.rename_target("栈"), Ok(8));
    let (e, refresh) = title_renamed_report(true, "栈与队列");
    assert!(matches!(&e, Entry::Info(s) if s == "会话已重命名为: 栈与队列"));
    assert!(refresh);
    let (e, refresh) = title_renamed_report(false, "栈与队列");
    assert!(matches!(&e, Entry::Error(s) if s == "重命名失败：会话不存在"));
    assert!(!refresh);
}
