use studypilot::keys::{Key, KeyCode};
use studypilot::note_browser::{
    BatchAction, BrowserMode, BrowserOutcome, NoteBrowser, NoteSummary, STRONG_CONFIRM_THRESHOLD,
};

fn summary(id: i64, title: &str) -> NoteSummary {
    NoteSummary { id, course_id: Some(1), title: title.to_owned(), short_id: "abcd".into() }
}

fn browser_with_results() -> NoteBrowser {
    let mut b = NoteBrowser::new(Some(1), "rust".into());
    b.mode = BrowserMode::Select;
    b.results = vec![summary(1, "所有权"), summary(2, "借用"), summary(3, "生命周期")];
    b
}

#[test]
fn empty_selection_uses_cursor_row() {
    let mut b = browser_with_results();
    b.cursor = 1;
    let (ids, titles) = b.action_targets();
    assert_eq!(ids, vec![2]);
    assert_eq!(titles, vec!["借用"]);
}

#[test]
fn selection_wins_over_cursor() {
    let mut b = browser_with_results();
    b.cursor = 1;
    b.selected.insert(3);
    let (ids, _) = b.action_targets();
    assert_eq!(ids, vec![3]);
}

#[test]
fn toggle_and_select_all() {
    let mut b = browser_with_results();
    b.cursor = 0;
    b.toggle_current();
    assert_eq!(b.selected_count(), 1);
    b.toggle_current();
    assert_eq!(b.selected_count(), 0);
    b.select_all_results();
    assert_eq!(b.selected_count(), 3);
}

#[test]
fn cursor_clamps_when_results_shrink() {
    let mut b = browser_with_results();
    b.cursor = 2;
    b.results = vec![summary(1, "所有权")];
    b.clamp_cursor();
    assert_eq!(b.cursor, 0);
}

#[test]
fn empty_results_no_targets() {
    let mut b = NoteBrowser::new(Some(1), "rust".into());
    b.mode = BrowserMode::Select;
    assert!(b.action_targets().0.is_empty());
}

#[test]
fn selected_targets_come_sorted_with_listed_titles() {
    let mut b = browser_with_results();
    b.selected.insert(3);
    b.selected.insert(9);
    b.selected.insert(1);
    let (ids, titles) = b.action_targets();
    assert_eq!(ids, vec![1, 3, 9]);
    assert_eq!(titles, vec!["所有权", "生命周期"]);
}

#[test]
fn search_sequence_and_stale_results() {
    let mut b = NoteBrowser::new(None, "all".into());
    let s1 = b.begin_search();
    let s2 = b.begin_search();
    assert_eq!((s1, s2), (1, 2));
    assert!(b.loading);
    assert!(b.on_results(s1, Ok(vec![summary(5, "旧")])).is_none());
    assert!(b.results.is_empty(), "an older answer is dropped");
    assert!(b.loading);
    assert!(b.on_results(s2, Ok(vec![summary(7, "新")])).is_none());
    assert_eq!(b.results.len(), 1);
    assert!(!b.loading);
    let msg = b.on_results(s2, Err("disk".into()));
    assert_eq!(msg.as_deref(), Some("搜索笔记失败: disk"));
    assert_eq!(b.results.len(), 1, "a failure keeps the results");
}

fn press(b: &mut NoteBrowser, input: &mut String, pos: &mut usize, code: KeyCode) -> BrowserOutcome {
    b.handle_key(input, pos, Key::press(code), &[(4, "rust".to_string()), (5, "csapp".to_string())])
}

#[test]
fn move_flow_picks_target_and_confirms() {
    let mut b = browser_with_results();
    b.mode = BrowserMode::Search;
    let mut input = String::from("所");
    let mut pos = 1usize;
    assert!(matches!(press(&mut b, &mut input, &mut pos, KeyCode::Enter), BrowserOutcome::Handled));
    assert_eq!(b.mode, BrowserMode::Select);
    press(&mut b, &mut input, &mut pos, KeyCode::Down);
    assert_eq!(b.cursor, 1);
    press(&mut b, &mut input, &mut pos, KeyCode::Char(' '));
    assert_eq!(b.selected_count(), 1);
    press(&mut b, &mut input, &mut pos, KeyCode::Char('m'));
    assert_eq!(b.mode, BrowserMode::PickTarget);
    assert_eq!(b.action, Some(BatchAction::Move));
    assert!(input.is_empty());
    press(&mut b, &mut input, &mut pos, KeyCode::Down);
    press(&mut b, &mut input, &mut pos, KeyCode::Down);
    press(&mut b, &mut input, &mut pos, KeyCode::Down);
    assert_eq!(b.pick_cursor, 2, "the cursor stops on the last target");
    press(&mut b, &mut input, &mut pos, KeyCode::Enter);
    assert_eq!(b.mode, BrowserMode::Confirm);
    assert_eq!(b.move_target, Some(5));
    assert_eq!(b.move_target_label, "csapp");
    match press(&mut b, &mut input, &mut pos, KeyCode::Enter) {
        BrowserOutcome::Run(req) => {
            assert_eq!(req.action, BatchAction::Move);
            assert_eq!(req.ids, vec![2]);
            assert_eq!(req.move_target, Some(5));
            assert_eq!(req.target_label, "csapp");
            assert_eq!(req.scope_label, "rust");
        }
        _ => panic!("Enter on the confirmation runs the action"),
    }
}

#[test]
fn all_partition_target_is_none() {
    let mut b = browser_with_results();
    let mut input = String::new();
    let mut pos = 0usize;
    press(&mut b, &mut input, &mut pos, KeyCode::Char('m'));
    press(&mut b, &mut input, &mut pos, KeyCode::Enter);
    assert_eq!(b.move_target, None);
    assert_eq!(b.move_target_label, "all（全部）");
}

#[test]
fn large_delete_needs_delete_word() {
    let mut b = NoteBrowser::new(Some(1), "rust".into());
    b.mode = BrowserMode::Select;
    b.results = (1..=12).map(|i| summary(i, "n")).collect();
    let mut input = String::new();
    let mut pos = 0usize;
    let ctrl_a = Key::ctrl(KeyCode::Char('a'));
    b.handle_key(&mut input, &mut pos, ctrl_a, &[]);
    assert_eq!(b.selected_count(), 12);
    assert!(12 > STRONG_CONFIRM_THRESHOLD);
    press(&mut b, &mut input, &mut pos, KeyCode::Char('d'));
    assert_eq!(b.mode, BrowserMode::Confirm);
    assert!(matches!(press(&mut b, &mut input, &mut pos, KeyCode::Enter), BrowserOutcome::NeedStrongConfirm));
    for c in " DELETE ".chars() {
        press(&mut b, &mut input, &mut pos, KeyCode::Char(c));
    }
    match press(&mut b, &mut input, &mut pos, KeyCode::Enter) {
        BrowserOutcome::Run(req) => {
            assert_eq!(req.action, BatchAction::Delete);
            assert_eq!(req.ids, (1..=12).collect::<Vec<i64>>());
            assert!(input.is_empty());
        }
        _ => panic!("DELETE typed in confirms"),
    }
}

#[test]
fn select_escape_clears_selection_and_restarts_search() {
    let mut b = browser_with_results();
    b.selected.insert(1);
    let mut input = String::from("x");
    let mut pos = 1usize;
    match press(&mut b, &mut input, &mut pos, KeyCode::Esc) {
        BrowserOutcome::Search(seq) => assert_eq!(seq, 1),
        _ => panic!("Esc in Select restarts the search"),
    }
    assert_eq!(b.mode, BrowserMode::Search);
    assert_eq!(b.selected_count(), 0);
    assert!(input.is_empty());
    assert_eq!(pos, 0);
    assert!(matches!(press(&mut b, &mut input, &mut pos, KeyCode::Char('q')), BrowserOutcome::Pass));
    assert!(matches!(press(&mut b, &mut input, &mut pos, KeyCode::Esc), BrowserOutcome::Closed));
}

#[test]
fn nothing_to_act_on_keeps_select_mode() {
    let mut b = NoteBrowser::new(None, "all".into());
    b.mode = BrowserMode::Select;
    let mut input = String::new();
    let mut pos = 0usize;
    press(&mut b, &mut input, &mut pos, KeyCode::Char('d'));
    assert_eq!(b.mode, BrowserMode::Select);
    assert_eq!(b.action, None);
}
