use studypilot::keys::{Key, KeyCode};
use studypilot::navigation::{
    continue_session, course_choice, course_cursor_count, course_label, current_course_id,
    esc_action, go_back, home_choice, home_cursor_count, home_cursor_course, home_cursor_for,
    input_key, interrupt_action, key_layers, nav_key, session_list_lines, startup_course, CourseChoice, DeleteStep, EscAction,
    HomeChoice, HomeDelete, InputAction, InputLine, Layer, NavAction, Overlays, SessionMeta,
    Workspace,
};

fn courses() -> Vec<(i64, String)> {
    vec![(1, "rust".to_string()), (2, "csapp".to_string())]
}

fn session(id: i64, title: Option<&str>, course_id: Option<i64>) -> SessionMeta {
    SessionMeta {
        id,
        title: title.map(|t| t.to_string()),
        course_id,
        created_at: "2026-09-02 10:00:00".into(),
    }
}

#[test]
fn take_is_nested_safe() {
    let mut line = InputLine::new();
    line.input = "原始聊天内容".into();
    line.take_for_overlay();
    assert_eq!(line.input, "");
    line.input = "搜索词".into();
    line.take_for_overlay();
    line.restore_backup();
    assert_eq!(line.input, "原始聊天内容");
    assert_eq!(line.cursor_pos, 6);
}

#[test]
fn restore_without_backup_is_noop() {
    let mut line = InputLine::new();
    line.input = "保留".into();
    line.restore_backup();
    assert_eq!(line.input, "保留");
}

#[test]
fn dropped_backup_is_gone() {
    let mut line = InputLine::new();
    line.input = "draft".into();
    line.take_for_overlay();
    line.drop_backup();
    line.restore_backup();
    assert_eq!(line.input, "");
}

#[test]
fn continue_learning_labels_global_session() {
    let sessions = vec![session(9, Some("你是谁"), None)];
    let (_, course, title) = continue_session(&sessions, &courses()).expect("a Continue target");
    assert_eq!(course, "Global");
    assert_eq!(title, "你是谁");
}

#[test]
fn global_session_does_not_override_real_course_continue() {
    let sessions = vec![
        session(11, Some("Global 最新会话"), None),
        session(10, Some("Rust 学习"), Some(1)),
    ];
    let (id, course, title) = continue_session(&sessions, &courses()).expect("a Continue target");
    assert_eq!(id, 10);
    assert_eq!(course, "rust");
    assert_eq!(title, "Rust 学习");
}

#[test]
fn untitled_and_unknown_course() {
    let sessions = vec![session(3, None, Some(99))];
    let (_, course, title) = continue_session(&sessions, &courses()).unwrap();
    assert_eq!(course, "Global");
    assert_eq!(title, "(未命名)");
    assert!(continue_session(&[], &courses()).is_none());
}

#[test]
fn labels_and_ids() {
    assert_eq!(course_label(&courses(), Some(2)), "csapp");
    assert_eq!(course_label(&courses(), None), "Global");
    assert_eq!(current_course_id(&courses(), "rust"), Some(1));
    assert_eq!(current_course_id(&courses(), "all"), None);
    assert_eq!(current_course_id(&courses(), "nope"), None);
}

#[test]
fn home_layout() {
    assert_eq!(home_cursor_count(0, false), 2);
    assert_eq!(home_cursor_count(2, false), 4);
    assert_eq!(home_cursor_count(2, true), 5);
    assert_eq!(home_cursor_for(&courses(), "csapp", true), 3);
    assert_eq!(home_cursor_for(&courses(), "csapp", false), 2);
    assert_eq!(home_cursor_for(&courses(), "all", true), 0);
    assert_eq!(home_cursor_course(&courses(), 3, true).as_deref(), Some("csapp"));
    assert_eq!(home_cursor_course(&courses(), 1, true), None);
    let cont = Some((10, "rust".to_string(), "Rust 学习".to_string()));
    assert!(matches!(home_choice(0, &courses(), &cont), HomeChoice::Setup));
    assert!(matches!(home_choice(1, &courses(), &cont), HomeChoice::Continue { session: 10, .. }));
    assert!(matches!(home_choice(2, &courses(), &cont), HomeChoice::EnterCourse(ref n) if n == "rust"));
    assert!(matches!(home_choice(4, &courses(), &cont), HomeChoice::NewCourse));
    assert!(matches!(home_choice(1, &courses(), &None), HomeChoice::EnterCourse(ref n) if n == "rust"));
    assert!(matches!(home_choice(1, &[], &None), HomeChoice::NewCourse));
}

#[test]
fn course_layout() {
    let sessions = vec![
        session(5, None, Some(1)),
        session(6, None, Some(2)),
        session(7, None, Some(1)),
        session(8, None, Some(1)),
        session(9, None, Some(1)),
    ];
    assert_eq!(course_cursor_count(&sessions, Some(1)), 8);
    assert_eq!(course_cursor_count(&sessions, Some(3)), 4);
    assert_eq!(course_choice(0, &sessions, Some(1)), CourseChoice::OpenSession(5));
    assert_eq!(course_choice(1, &sessions, Some(1)), CourseChoice::NewConversation);
    assert_eq!(course_choice(4, &sessions, Some(1)), CourseChoice::Import);
    assert_eq!(course_choice(7, &sessions, Some(1)), CourseChoice::OpenSession(8));
    assert_eq!(course_choice(8, &sessions, Some(1)), CourseChoice::Nothing);
    assert_eq!(course_choice(0, &sessions, Some(3)), CourseChoice::NewConversation);
    assert_eq!(course_choice(2, &sessions, Some(3)), CourseChoice::Outline);
}

#[test]
fn esc_interrupts_before_going_back() {
    assert_eq!(esc_action(true, true, Workspace::Home), EscAction::CancelImport);
    assert_eq!(esc_action(false, true, Workspace::Home), EscAction::CancelRequest);
    assert_eq!(esc_action(false, false, Workspace::Session), EscAction::Back);
    assert_eq!(esc_action(false, false, Workspace::Home), EscAction::Quit);
    assert_eq!(interrupt_action(false, false), EscAction::Quit);
}

#[test]
fn esc_navigates_session_back_to_course_then_home() {
    let mut ws = Workspace::Session;
    assert_eq!(go_back(&mut ws, &courses(), "csapp", false), None);
    assert_eq!(ws, Workspace::Course);
    assert_eq!(go_back(&mut ws, &courses(), "csapp", false), Some(2));
    assert_eq!(ws, Workspace::Home);
}

#[test]
fn home_delete_needs_two_presses_on_the_same_course() {
    let mut d = HomeDelete::new();
    assert!(matches!(d.press(Some("rust".into())), DeleteStep::Confirm(ref c) if c == "rust"));
    assert!(matches!(d.press(Some("csapp".into())), DeleteStep::Confirm(ref c) if c == "csapp"));
    assert!(matches!(d.press(Some("csapp".into())), DeleteStep::Delete(ref c) if c == "csapp"));
    assert!(!d.armed);
    assert!(matches!(d.press(None), DeleteStep::Nothing));
}

#[test]
fn ctrl_k_opens_palette_in_home_course() {
    let mut ws = Workspace::Home;
    let (mut h, mut c) = (0usize, 0usize);
    assert_eq!(nav_key(&mut ws, &mut h, &mut c, Key::ctrl(KeyCode::Char('k')), 4, 4), NavAction::OpenPalette);
    assert_eq!(nav_key(&mut ws, &mut h, &mut c, Key::press(KeyCode::Char('x')), 4, 4), NavAction::Nothing);
    ws = Workspace::Course;
    assert_eq!(nav_key(&mut ws, &mut h, &mut c, Key::ctrl(KeyCode::Char('k')), 4, 4), NavAction::OpenPalette);
}

#[test]
fn nav_cursor_stays_in_range() {
    let mut ws = Workspace::Home;
    let (mut h, mut c) = (0usize, 0usize);
    for _ in 0..10 {
        nav_key(&mut ws, &mut h, &mut c, Key::press(KeyCode::Down), 3, 6);
    }
    assert_eq!(h, 2);
    nav_key(&mut ws, &mut h, &mut c, Key::press(KeyCode::Up), 3, 6);
    assert_eq!(h, 1);
    assert_eq!(nav_key(&mut ws, &mut h, &mut c, Key::press(KeyCode::Enter), 3, 6), NavAction::HomeActivate);
    assert_eq!(nav_key(&mut ws, &mut h, &mut c, Key::press(KeyCode::Char('d')), 3, 6), NavAction::DeleteCourse);
    ws = Workspace::Course;
    c = 4;
    assert_eq!(nav_key(&mut ws, &mut h, &mut c, Key::press(KeyCode::Esc), 3, 6), NavAction::Nothing);
    assert_eq!(ws, Workspace::Home);
    assert_eq!(h, 0);
    assert_eq!(nav_key(&mut ws, &mut h, &mut c, Key::press(KeyCode::Esc), 3, 6), NavAction::Quit);
}

#[test]
fn chat_input_keys() {
    let mut line = InputLine::new();
    let mut scroll = 0u16;
    for ch in "中文ab".chars() {
        assert_eq!(input_key(&mut line, &mut scroll, Key::press(KeyCode::Char(ch))), InputAction::Edited);
    }
    assert_eq!(line.input, "中文ab");
    assert_eq!(line.cursor_pos, 4);
    input_key(&mut line, &mut scroll, Key::press(KeyCode::Home));
    input_key(&mut line, &mut scroll, Key::press(KeyCode::Right));
    input_key(&mut line, &mut scroll, Key::press(KeyCode::Delete));
    assert_eq!(line.input, "中ab");
    input_key(&mut line, &mut scroll, Key::press(KeyCode::End));
    input_key(&mut line, &mut scroll, Key::press(KeyCode::Backspace));
    assert_eq!(line.input, "中a");
    assert_eq!(line.cursor_pos, 2);
    input_key(&mut line, &mut scroll, Key::press(KeyCode::Right));
    assert_eq!(line.cursor_pos, 2);
    input_key(&mut line, &mut scroll, Key::press(KeyCode::PageUp));
    assert_eq!(scroll, 10);
    input_key(&mut line, &mut scroll, Key::press(KeyCode::PageDown));
    input_key(&mut line, &mut scroll, Key::press(KeyCode::PageDown));
    assert_eq!(scroll, 0);
    assert_eq!(input_key(&mut line, &mut scroll, Key::press(KeyCode::Enter)), InputAction::Submit);
    assert_eq!(input_key(&mut line, &mut scroll, Key::ctrl(KeyCode::Char('c'))), InputAction::InterruptOrQuit);
    assert_eq!(input_key(&mut line, &mut scroll, Key::ctrl(KeyCode::Char('q'))), InputAction::QuitNow);
    assert_eq!(input_key(&mut line, &mut scroll, Key::ctrl(KeyCode::Char('k'))), InputAction::OpenPalette);
    assert_eq!(input_key(&mut line, &mut scroll, Key::press(KeyCode::Esc)), InputAction::EscOrBack);
}

#[test]
fn layers_order() {
    let none = Overlays {
        setup: false, warmup: false, review: false, wizard: false, list_picker: false,
        review_map_picker: false, note_browser: false, session_browser: false, palette: false,
        model_picker: false,
    };
    assert_eq!(key_layers(none, Workspace::Home), vec![Layer::Nav]);
    assert_eq!(key_layers(none, Workspace::Session), vec![Layer::Input]);
    let o = Overlays { setup: true, palette: true, note_browser: true, ..none };
    assert_eq!(
        key_layers(o, Workspace::Home),
        vec![Layer::Setup, Layer::NoteBrowser, Layer::Palette, Layer::Input]
    );
    let r = Overlays { review: true, wizard: true, ..none };
    assert_eq!(key_layers(r, Workspace::Session), vec![Layer::Review]);
    let m = Overlays { model_picker: true, ..none };
    assert_eq!(key_layers(m, Workspace::Course), vec![Layer::ModelPicker]);
}

#[test]
fn startup_lands_on_a_listed_course() {
    let cs = vec![(1, "rust".to_string()), (2, "csapp".to_string())];
    assert_eq!(startup_course(&cs, "all"), Some("rust".to_string()));
    assert_eq!(startup_course(&cs, "gone"), Some("rust".to_string()));
    assert_eq!(startup_course(&cs, "csapp"), None);
    assert_eq!(startup_course(&[], "all"), None);
}

#[test]
fn home_cursor_round_trip_for_every_listed_course() {
    let cs = vec![(1, "rust".to_string()), (2, "csapp".to_string()), (3, "os".to_string())];
    for has_continue in [false, true] {
        for (_, name) in &cs {
            let cur = home_cursor_for(&cs, name, has_continue);
            assert_eq!(home_cursor_course(&cs, cur, has_continue), Some(name.clone()));
        }
    }
}

#[test]
fn session_list_lines_name_title_and_course() {
    let cs = vec![(1, "rust".to_string())];
    let sessions = vec![session(5, Some("所有权"), Some(1)), session(-2, None, None), session(9, None, Some(7))];
    assert_eq!(
        session_list_lines(&sessions, &cs),
        vec!["  #5 所有权 · rust", "  #-2 (未命名) · Global", "  #9 (未命名) · Global"]
    );
    assert_eq!(session_list_lines(&[], &cs), vec!["尚无历史会话"]);
}
