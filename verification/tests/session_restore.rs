use studypilot::events::Entry;
use studypilot::refs::{ChatMessage, MessageRole};
use studypilot::session_restore::{
    entries_of_loaded, entries_of_messages, export_file_name, exported_notice, loaded_notice, reopened_notice,
    session_course,
};

fn msg(role: MessageRole, content: Option<&str>) -> ChatMessage {
    ChatMessage { role, content: content.map(|s| s.to_string()) }
}

fn describe(e: &Entry) -> String {
    match e {
        Entry::Info(s) => format!("info:{s}"),
        Entry::User(s) => format!("user:{s}"),
        Entry::Assistant { content, reasoning_chars } => format!("assistant:{content}:{reasoning_chars:?}"),
        other => format!("other:{other:?}"),
    }
}

#[test]
fn reopened_messages_become_chat_lines() {
    let msgs = vec![
        msg(MessageRole::System, Some("系统提示")),
        msg(MessageRole::System, None),
        msg(MessageRole::User, Some("什么是栈？")),
        msg(MessageRole::User, None),
        msg(MessageRole::Assistant, None),
        msg(MessageRole::Tool, Some("{\"results\":[]}")),
        msg(MessageRole::Assistant, Some("栈是后进先出的结构。")),
    ];
    let lines: Vec<String> = entries_of_messages(&msgs).iter().map(describe).collect();
    assert_eq!(
        lines,
        vec![
            "info:系统提示".to_string(),
            "user:什么是栈？".to_string(),
            "assistant::None".to_string(),
            "info:[工具结果]".to_string(),
            "assistant:栈是后进先出的结构。:None".to_string(),
        ]
    );
}

#[test]
fn an_empty_session_gives_no_lines() {
    assert!(entries_of_messages(&[]).is_empty());
}

#[test]
fn reopened_session_takes_its_course_back() {
    let courses = vec![(3, "数据结构".to_string()), (7, "操作系统".to_string())];
    assert_eq!(session_course(&courses, Some(7)), "操作系统");
    assert_eq!(session_course(&courses, Some(3)), "数据结构");
}

#[test]
fn a_deleted_or_missing_course_falls_back_to_all() {
    let courses = vec![(3, "数据结构".to_string())];
    assert_eq!(session_course(&courses, Some(9)), "all");
    assert_eq!(session_course(&courses, None), "all");
    assert_eq!(session_course(&[], Some(3)), "all");
}

#[test]
fn reopened_notice_counts_messages() {
    assert_eq!(reopened_notice(12, "数据结构", 5), "已恢复会话 #12（课程: 数据结构），共 5 条消息");
    assert_eq!(reopened_notice(-1, "all", 0), "已恢复会话 #-1（课程: all），共 0 条消息");
}

#[test]
fn loaded_files_show_only_user_and_assistant_messages() {
    let msgs = vec![
        msg(MessageRole::System, Some("系统提示")),
        msg(MessageRole::User, Some("问")),
        msg(MessageRole::User, None),
        msg(MessageRole::Tool, Some("{}")),
        msg(MessageRole::Assistant, None),
        msg(MessageRole::Assistant, Some("答")),
    ];
    let lines: Vec<String> = entries_of_loaded(&msgs).iter().map(describe).collect();
    assert_eq!(lines, vec!["user:问".to_string(), "assistant::None".to_string(), "assistant:答:None".to_string()]);
}

#[test]
fn export_and_load_notices() {
    assert_eq!(export_file_name(0, 1700000000), "session-draft-1700000000.json");
    assert_eq!(export_file_name(42, 5), "session-42-5.json");
    assert_eq!(exported_notice(3, "data/exports/session-42-5.json"), "已导出 3 条消息到 data/exports/session-42-5.json（/load 该文件可还原）");
    assert_eq!(loaded_notice("a.json", 4), "已从 a.json 加载 4 条消息为新会话");
}
