use studypilot::keys::{Key, KeyCode};
use studypilot::navigation::InputLine;
use studypilot::session_browser::{SessionBrowserMode, SessionBrowserState, SessionKeyOutcome};

fn browser(mode: SessionBrowserMode, cursor: usize, n: usize) -> SessionBrowserState {
    SessionBrowserState { mode, cursor, n_results: n, rename_old: "旧搜索".to_string() }
}

#[test]
fn search_mode_keys() {
    let mut line = InputLine::new();
    line.input = "聊天".to_string();
    line.take_for_overlay();
    line.input = "词".to_string();
    let mut b = browser(SessionBrowserMode::Search, 0, 3);
    assert_eq!(b.handle_key(&mut line, Key::press(KeyCode::Up)), SessionKeyOutcome::ScrollPreview { down: false });
    assert_eq!(b.handle_key(&mut line, Key::press(KeyCode::Down)), SessionKeyOutcome::ScrollPreview { down: true });
    assert_eq!(b.handle_key(&mut line, Key::press(KeyCode::Char('x'))), SessionKeyOutcome::Pass);
    assert_eq!(b.handle_key(&mut line, Key::press(KeyCode::Enter)), SessionKeyOutcome::EnterSelect);
    assert_eq!(b.mode, SessionBrowserMode::Select);
    let mut b = browser(SessionBrowserMode::Search, 0, 3);
    assert_eq!(b.handle_key(&mut line, Key::press(KeyCode::Esc)), SessionKeyOutcome::Close);
    assert_eq!(line.input, "聊天");
    assert_eq!(line.backup, None);
}

#[test]
fn select_mode_moves_and_acts() {
    let mut line = InputLine::new();
    let mut b = browser(SessionBrowserMode::Select, 0, 2);
    assert_eq!(b.handle_key(&mut line, Key::press(KeyCode::Up)), SessionKeyOutcome::CursorMoved);
    assert_eq!(b.cursor, 0);
    b.handle_key(&mut line, Key::press(KeyCode::Down));
    b.handle_key(&mut line, Key::press(KeyCode::Down));
    assert_eq!(b.cursor, 1);
    assert_eq!(b.handle_key(&mut line, Key::press(KeyCode::Enter)), SessionKeyOutcome::Open);
    assert_eq!(b.handle_key(&mut line, Key::press(KeyCode::Char('o'))), SessionKeyOutcome::Open);
    assert_eq!(b.handle_key(&mut line, Key::press(KeyCode::Char('r'))), SessionKeyOutcome::BeginRename);
    assert_eq!(b.handle_key(&mut line, Key::press(KeyCode::Char('d'))), SessionKeyOutcome::BeginDelete);
    assert_eq!(b.handle_key(&mut line, Key::press(KeyCode::Char('z'))), SessionKeyOutcome::Handled);
    line.input = "abc".to_string();
    line.cursor_pos = 3;
    assert_eq!(b.handle_key(&mut line, Key::press(KeyCode::Char('/'))), SessionKeyOutcome::Search);
    assert_eq!(b.mode, SessionBrowserMode::Search);
    assert_eq!((line.input.as_str(), line.cursor_pos), ("", 0));
    let mut empty = browser(SessionBrowserMode::Select, 0, 0);
    assert_eq!(empty.handle_key(&mut line, Key::press(KeyCode::Down)), SessionKeyOutcome::Handled);
}

#[test]
fn rename_mode_edits_and_cancels() {
    let mut line = InputLine::new();
    let mut b = browser(SessionBrowserMode::Rename, 1, 2);
    assert_eq!(b.handle_key(&mut line, Key::press(KeyCode::Char('新'))), SessionKeyOutcome::Edited);
    assert_eq!(b.handle_key(&mut line, Key::press(KeyCode::Char('名'))), SessionKeyOutcome::Edited);
    assert_eq!(b.handle_key(&mut line, Key::press(KeyCode::Backspace)), SessionKeyOutcome::Edited);
    assert_eq!(line.input, "新");
    assert_eq!(b.handle_key(&mut line, Key::ctrl(KeyCode::Char('a'))), SessionKeyOutcome::Handled);
    assert_eq!(b.handle_key(&mut line, Key::press(KeyCode::Enter)), SessionKeyOutcome::ConfirmRename);
    assert_eq!(b.handle_key(&mut line, Key::press(KeyCode::Esc)), SessionKeyOutcome::Handled);
    assert_eq!(b.mode, SessionBrowserMode::Select);
    assert_eq!((line.input.as_str(), line.cursor_pos), ("旧搜索", 3));
}

#[test]
fn confirm_delete_mode() {
    let mut line = InputLine::new();
    line.input = "x".to_string();
    let mut b = browser(SessionBrowserMode::ConfirmDelete, 0, 1);
    assert_eq!(b.handle_key(&mut line, Key::press(KeyCode::Char('y'))), SessionKeyOutcome::Handled);
    assert_eq!(b.handle_key(&mut line, Key::press(KeyCode::Enter)), SessionKeyOutcome::ConfirmDelete);
    assert_eq!(b.handle_key(&mut line, Key::press(KeyCode::Esc)), SessionKeyOutcome::Handled);
    assert_eq!(b.mode, SessionBrowserMode::Select);
    assert_eq!(line.input, "");
}

#[test]
fn releases_pass_through() {
    let mut line = InputLine::new();
    let mut b = browser(SessionBrowserMode::Select, 0, 1);
    let key = Key { code: KeyCode::Enter, ctrl: false, press: false };
    assert_eq!(b.handle_key(&mut line, key), SessionKeyOutcome::Pass);
}

use studypilot::navigation::SessionMeta;
use studypilot::session_browser::{delete_report, rename_report, SessionBrowser};

fn meta(id: i64, title: Option<&str>) -> SessionMeta {
    SessionMeta { id, title: title.map(|t| t.to_string()), course_id: Some(1), created_at: "2024-05-01".to_string() }
}

fn full_browser(mode: SessionBrowserMode, cursor: usize, rows: Vec<SessionMeta>) -> SessionBrowser {
    SessionBrowser {
        state: SessionBrowserState { mode, cursor, n_results: rows.len(), rename_old: String::new() },
        results: rows,
        search_seq: 0,
        loading: false,
        rename_id: None,
    }
}

#[test]
fn stale_search_answers_are_dropped() {
    let mut b = full_browser(SessionBrowserMode::Search, 4, vec![meta(1, Some("a"))]);
    let first = b.begin_search();
    let second = b.begin_search();
    assert_eq!((first, second), (1, 2));
    assert!(b.loading);
    assert_eq!(b.on_results(first, Ok(vec![])), None);
    assert_eq!(b.results.len(), 1);
    assert!(b.loading);
    assert_eq!(b.on_results(second, Ok(vec![meta(5, None), meta(6, None)])), None);
    assert!(!b.loading);
    assert_eq!(b.results.len(), 2);
    assert_eq!(b.state.n_results, 2);
    assert_eq!(b.state.cursor, 1);
    let seq = b.begin_search();
    assert_eq!(b.on_results(seq, Err("db locked".into())), Some("搜索会话失败: db locked".to_string()));
    assert_eq!(b.results.len(), 2);
    assert!(!b.loading);
}

#[test]
fn rename_updates_the_row_at_once() {
    let mut b = full_browser(SessionBrowserMode::Select, 1, vec![meta(3, Some("甲")), meta(4, None), meta(5, Some("丙"))]);
    let mut line = InputLine::new();
    line.input = "搜索词".to_string();
    line.cursor_pos = 3;
    assert!(b.begin_rename(&mut line));
    assert_eq!(b.rename_id, Some(4));
    assert_eq!(b.state.mode, SessionBrowserMode::Rename);
    assert_eq!(b.state.rename_old, "搜索词");
    assert_eq!((line.input.as_str(), line.cursor_pos), ("", 0));
    line.input = "  新标题 ".to_string();
    assert_eq!(b.confirm_rename(&mut line), Some((4, "新标题".to_string())));
    assert_eq!(b.results[1].title.as_deref(), Some("新标题"));
    assert_eq!(b.results[0].title.as_deref(), Some("甲"));
    assert_eq!(b.results[2].title.as_deref(), Some("丙"));
    assert_eq!(b.state.mode, SessionBrowserMode::Select);
    assert_eq!(line.input, "");
}

#[test]
fn rename_prefills_the_old_title_and_ignores_blank_titles() {
    let mut b = full_browser(SessionBrowserMode::Select, 0, vec![meta(3, Some("线性表"))]);
    let mut line = InputLine::new();
    assert!(b.begin_rename(&mut line));
    assert_eq!((line.input.as_str(), line.cursor_pos), ("线性表", 3));
    line.input = "   ".to_string();
    assert_eq!(b.confirm_rename(&mut line), None);
    assert_eq!(b.state.mode, SessionBrowserMode::Rename);
    assert_eq!(b.results[0].title.as_deref(), Some("线性表"));
    let mut empty = full_browser(SessionBrowserMode::Select, 0, vec![]);
    assert!(!empty.begin_rename(&mut line));
    assert_eq!(empty.confirm_rename(&mut line), None);
}

#[test]
fn the_open_session_cannot_be_deleted() {
    let mut b = full_browser(SessionBrowserMode::Select, 0, vec![meta(3, Some("甲")), meta(4, None)]);
    let mut line = InputLine::new();
    line.input = "x".to_string();
    assert_eq!(
        b.begin_delete(&mut line, Some(3)),
        Some("这是当前打开的会话，请先切换到其他会话再删除".to_string())
    );
    assert_eq!(b.state.mode, SessionBrowserMode::Select);
    assert_eq!(b.begin_delete(&mut line, Some(9)), None);
    assert_eq!(b.state.mode, SessionBrowserMode::ConfirmDelete);
    assert_eq!(line.input, "");
    b.state.cursor = 1;
    assert_eq!(b.delete_target(), Some((4, "(未命名)".to_string())));
    b.state.cursor = 0;
    assert_eq!(b.delete_target(), Some((3, "甲".to_string())));
    assert_eq!(b.current_id(), Some(3));
}

#[test]
fn delete_without_sessions() {
    let mut b = full_browser(SessionBrowserMode::Select, 0, vec![]);
    let mut line = InputLine::new();
    assert_eq!(b.begin_delete(&mut line, Some(2)), None);
    assert_eq!(b.state.mode, SessionBrowserMode::Select);
    assert_eq!(
        b.begin_delete(&mut line, None),
        Some("这是当前打开的会话，请先切换到其他会话再删除".to_string())
    );
    assert_eq!(b.delete_target(), None);
}

#[test]
fn session_action_reports() {
    assert_eq!(rename_report(7, Ok(true)), Ok("会话 #7 已重命名".to_string()));
    assert_eq!(rename_report(7, Ok(false)), Err("重命名失败：会话 #7 可能不存在，重新搜索可恢复显示".to_string()));
    assert_eq!(rename_report(7, Err("io".into())), Err("重命名失败：会话 #7 可能不存在，重新搜索可恢复显示".to_string()));
    assert_eq!(delete_report(7, "甲", Ok(true)), Ok("已删除会话 #7 甲（聊天记录一并清除）".to_string()));
    assert_eq!(delete_report(7, "甲", Ok(false)), Err("会话 #7 不存在".to_string()));
    assert_eq!(delete_report(7, "甲", Err("locked".into())), Err("删除失败: locked".to_string()));
}
