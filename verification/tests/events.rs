use studypilot::events::{apply_activity, Activity, Entry};

fn tool_line(e: &Entry) -> (String, Option<bool>) {
    match e {
        Entry::Tool { text, ok } => (text.clone(), *ok),
        other => panic!("not a tool line: {other:?}"),
    }
}

#[test]
fn rounds_after_the_first_are_announced() {
    let mut entries = Vec::new();
    let mut scroll: u16 = 7;
    apply_activity(&mut entries, &mut scroll, Activity::RoundStart { round: 1 });
    assert!(entries.is_empty());
    assert_eq!(scroll, 7);
    apply_activity(&mut entries, &mut scroll, Activity::RoundStart { round: 2 });
    assert!(matches!(&entries[0], Entry::Info(s) if s == "◌ 第 2 轮思考…"));
    assert_eq!(scroll, 0);
}

#[test]
fn a_tool_end_replaces_its_running_line() {
    let mut entries = Vec::new();
    let mut scroll: u16 = 3;
    apply_activity(&mut entries, &mut scroll, Activity::ToolStart { tool: "[检索]".into(), detail: "页表".into() });
    assert_eq!(tool_line(&entries[0]), ("[检索] 页表".to_string(), None));
    assert_eq!(scroll, 0);
    scroll = 4;
    apply_activity(&mut entries, &mut scroll, Activity::ToolDone { tool: "[检索]".into(), ok: true, detail: " 3 条".into() });
    assert_eq!(entries.len(), 1);
    assert_eq!(tool_line(&entries[0]), ("[检索] 3 条".to_string(), Some(true)));
    assert_eq!(scroll, 4);
    // No running line of that tool: the end is added.
    apply_activity(&mut entries, &mut scroll, Activity::ToolDone { tool: "[写入]".into(), ok: false, detail: " 失败".into() });
    assert_eq!(entries.len(), 2);
    assert_eq!(tool_line(&entries[1]), ("[写入] 失败".to_string(), Some(false)));
    assert_eq!(scroll, 0);
}
