use studypilot::navigation::Workspace;
use studypilot::palette::{
    matching_rows, CommandPalette, ListChoice, ListChoiceAction, ListPicker, MapRow, PaletteAction, PaletteGroup,
    PaletteScope, ReviewMapPicker,
};
use studypilot::review_map::{ConceptNode, OutlineSection, ReviewMap};

#[test]
fn settings_and_sessions_actions_are_direct() {
    let p = CommandPalette::new();
    let get = |label: &str| p.items.iter().find(|i| i.label == label).unwrap();
    assert!(matches!(get("Model").action, PaletteAction::OpenModel));
    assert!(matches!(get("Budget").action, PaletteAction::BudgetInfo));
    assert!(matches!(get("Budget → Reset").action, PaletteAction::BudgetReset));
    assert!(matches!(get("Recent Sessions").action, PaletteAction::OpenSessions));
    for label in ["Model", "Budget", "Budget → Reset", "Recent Sessions"] {
        let i = get(label);
        assert!(!matches!(i.action, PaletteAction::Run), "{label} must not fill the input");
    }
}

#[test]
fn conversation_actions_in_session_group() {
    let p = CommandPalette::new();
    let load = p.items.iter().find(|i| i.label == "Load Conversation").unwrap();
    let recent = p.items.iter().find(|i| i.label == "Recent Sessions").unwrap();
    assert_eq!(load.group, PaletteGroup::Session);
    assert_eq!(recent.group, PaletteGroup::Session);
    assert!(p.items.iter().all(|i| i.label != "Help"));
}

fn node(id: i64, name: &str, attempts: usize, correct: usize) -> ConceptNode {
    ConceptNode { concept_id: Some(id), name: name.to_owned(), attempts, correct }
}

#[test]
fn review_map_picker_flattens_sections_and_concepts() {
    let map = ReviewMap {
        course: "rust".into(),
        sections: vec![
            OutlineSection {
                title: "所有权与借用".into(),
                nodes: vec![node(1, "所有权", 2, 2), node(2, "借用", 2, 1), node(3, "移动语义", 0, 0)],
                refs: vec![],
            },
            OutlineSection { title: "类型系统".into(), nodes: vec![node(4, "Trait", 1, 1)], refs: vec![] },
        ],
        unresolved: 0,
        titles: vec![],
        today_attempts: 0,
        today_reviewed: vec![],
    };
    let p = ReviewMapPicker::from_map(&map);
    assert_eq!(p.title, "rust · Learning Map");
    assert_eq!(p.len(), 6);
    assert!(!p.is_empty());
    match &p.rows[0] {
        MapRow::Section { title, counts, concept_names } => {
            assert_eq!(title, "所有权与借用");
            assert_eq!(*counts, (1, 1, 1));
            assert_eq!(concept_names.len(), 3);
        }
        _ => panic!("first row must be a section header"),
    }
    match &p.rows[1] {
        MapRow::Concept { name, mark, .. } => {
            assert_eq!(name, "所有权");
            assert_eq!(*mark, '✓');
        }
        _ => panic!("concept row expected"),
    }
    match &p.rows[2] {
        MapRow::Concept { name, mark, .. } => {
            assert_eq!(name, "借用");
            assert_eq!(*mark, '△');
        }
        _ => panic!("concept row expected"),
    }
    match &p.rows[4] {
        MapRow::Section { title, counts, .. } => {
            assert_eq!(title, "类型系统");
            assert_eq!(*counts, (1, 0, 0));
        }
        _ => panic!("second section header expected"),
    }
}

fn choice(label: &str, command: &str) -> ListChoice {
    ListChoice { label: label.into(), command: command.into(), action: None }
}

fn picker() -> ListPicker {
    ListPicker {
        title: "t".into(),
        items: vec![
            choice("○ 变量遮蔽", "/review"),
            choice("△ 借用（做对 1 / 共 2 题）", "/review"),
            choice("✓ 所有权", "/review"),
        ],
        selected: 0,
    }
}

#[test]
fn empty_input_shows_all() {
    let p = picker();
    assert_eq!(p.visible("").len(), 3);
}

#[test]
fn filter_matches_case_insensitive_substring() {
    let p = picker();
    let v = p.visible("借用");
    assert_eq!(v, vec![1]);
    let p2 = ListPicker { title: "t".into(), items: vec![choice("○ Vec 容器", "c")], selected: 0 };
    assert_eq!(p2.visible("vec").len(), 1);
    assert_eq!(p2.visible("VEC").len(), 1);
}

#[test]
fn no_match_is_empty() {
    let p = picker();
    assert!(p.visible("不存在的概念").is_empty());
}

#[test]
fn selected_is_index_into_visible_list() {
    let p = picker();
    let v = p.visible("借用");
    assert_eq!(v[p.selected.min(v.len() - 1)], 1);
}

#[test]
fn palette_filter_searches_label_command_and_description() {
    let mut p = CommandPalette::new();
    let total = p.items.len();
    assert_eq!(p.filtered.len(), total);
    p.refilter("MODEL");
    assert!(!p.filtered.is_empty());
    assert!(p.filtered.iter().all(|&i| {
        let it = &p.items[i];
        it.label.to_lowercase().contains("model")
            || it.command.to_lowercase().contains("model")
            || it.desc.to_lowercase().contains("model")
    }));
    assert_eq!(p.selected, 0);
    p.refilter("zzzz-nothing");
    assert!(p.filtered.is_empty());
}

#[test]
fn context_filters_by_workspace_and_courses() {
    let mut p = CommandPalette::new();
    p.apply_context(Workspace::Home, false);
    assert!(!p.filtered.is_empty());
    assert!(p.filtered.iter().all(|&i| p.items[i].scope != PaletteScope::CurrentCourse));
    assert!(p.filtered.iter().all(|&i| p.items[i].group != PaletteGroup::Study
        || p.items[i].label == "New Conversation"));
    let mut q = CommandPalette::new();
    q.apply_context(Workspace::Session, true);
    assert!(q.filtered.iter().all(|&i| q.items[i].label != "New Course"
        && q.items[i].label != "Delete Course"));
    let mut c = CommandPalette::new();
    c.apply_context(Workspace::Course, true);
    assert!(c.filtered.iter().all(|&i| c.items[i].scope != PaletteScope::CurrentSession));
}

#[test]
fn group_labels() {
    assert_eq!(PaletteGroup::Study.label(), "学习");
    assert_eq!(PaletteGroup::Settings.label(), "设置");
}

#[test]
fn list_choice_actions_compare_by_id() {
    assert_eq!(ListChoiceAction::SwitchCourse(3), ListChoiceAction::SwitchCourse(3));
    assert_ne!(ListChoiceAction::SwitchCourse(3), ListChoiceAction::DeleteCourse(3));
}

use studypilot::keys::{Key, KeyCode};
use studypilot::palette::{
    course_picker, palette_step, ListKey, MapKey, ModelInfo, ModelKey, ModelPicker, PaletteKey,
    PaletteStep, PickKind, ProviderModels,
};
use studypilot::wizard::WizardKind;

#[test]
fn switch_course_picker_excludes_all() {
    let courses = vec![(1, "rust".to_string()), (2, "csapp".to_string())];
    let lp = course_picker(&courses, PickKind::CourseSwitch).expect("a picker");
    assert!(!lp.items.is_empty());
    assert!(lp.items.iter().all(|c| c.label != "all"));
    assert_eq!(lp.items.len(), 2);
    assert_eq!(lp.items[1].command, "/course --id 2");
    assert_eq!(lp.items[1].action, Some(ListChoiceAction::SwitchCourse(2)));
    let del = course_picker(&courses, PickKind::CourseDelete).unwrap();
    assert_eq!(del.items[0].command, "/course -delete --id 1");
    assert!(course_picker(&[], PickKind::CourseSwitch).is_none());
}

#[test]
fn negative_ids_print_with_sign() {
    let lp = course_picker(&[(-7, "x".to_string())], PickKind::CourseSwitch).unwrap();
    assert_eq!(lp.items[0].command, "/course --id -7");
}

fn models(ids: &[(&str, &str, bool)]) -> Vec<ModelInfo> {
    ids.iter()
        .map(|(id, name, thinking)| ModelInfo { id: id.to_string(), display_name: name.to_string(), thinking: *thinking })
        .collect()
}

#[test]
fn model_picker_flattens_providers_and_locates_current() {
    let a = ProviderModels {
        name: "deepseek".into(),
        known_pricing: true,
        models: models(&[("deepseek-v4-flash", "V4 Flash", false), ("deepseek-v4-pro", "V4 Pro", true)]),
    };
    let b = ProviderModels { name: "glm".into(), known_pricing: false, models: models(&[("glm-5", "glm-5", false)]) };
    let picker = ModelPicker::from_providers(&[a, b], "glm", "glm-5", &[]);
    assert_eq!(picker.options.len(), 6);
    assert!(picker.options[0].is_role && picker.options[1].is_role && picker.options[2].is_role);
    assert_eq!(picker.options[5].provider, "glm");
    assert_eq!(picker.options[5].model, "glm-5");
    assert_eq!(picker.selected, 5);
    assert!(picker.options[3].known_pricing);
    assert!(!picker.options[5].known_pricing);
    assert!(picker.options[4].thinking);
}

#[test]
fn model_role_rows_first_and_role_mode() {
    let a = ProviderModels {
        name: "deepseek".into(),
        known_pricing: true,
        models: models(&[("deepseek-v4-flash", "V4 Flash", false), ("deepseek-v4-pro", "V4 Pro", true)]),
    };
    let roles = vec![("fast".to_string(), "deepseek/deepseek-v4-pro".to_string())];
    let mut picker = ModelPicker::from_providers(&[a], "x", "y", &roles);
    assert_eq!(picker.selected, 0);
    assert!(picker.selected_is_role());
    assert_eq!(picker.options[0].model_display, "fast");
    assert_eq!(picker.options[1].model_display, "balanced");
    assert_eq!(picker.options[2].model_display, "reasoning");
    picker.enter_role("fast");
    assert_eq!(picker.role.as_deref(), Some("fast"));
    assert!(picker.options.iter().all(|o| !o.is_role));
    assert_eq!(picker.selected, 1, "the binding is preselected");
    assert!(!picker.selected_is_role());
}

#[test]
fn model_picker_keys() {
    let a = ProviderModels {
        name: "p".into(),
        known_pricing: true,
        models: models(&[("m1", "M1", false), ("m2", "M2", false)]),
    };
    let mut picker = ModelPicker::from_providers(&[a], "p", "m1", &[]);
    assert_eq!(picker.selected, 3);
    picker.handle_key(Key::press(KeyCode::Down));
    picker.handle_key(Key::press(KeyCode::Down));
    assert_eq!(picker.selected, 4);
    match picker.handle_key(Key::press(KeyCode::Enter)) {
        ModelKey::Switch { provider, model } => assert_eq!((provider.as_str(), model.as_str()), ("p", "m2")),
        _ => panic!("Enter switches"),
    }
    match picker.handle_key(Key::press(KeyCode::Char('4'))) {
        ModelKey::Switch { model, .. } => assert_eq!(model, "m1"),
        _ => panic!("a digit switches directly"),
    }
    assert!(matches!(picker.handle_key(Key::press(KeyCode::Char('9'))), ModelKey::Handled));
    assert!(matches!(picker.handle_key(Key::press(KeyCode::Char('q'))), ModelKey::Close));
}

#[test]
fn palette_keys_and_steps() {
    let mut p = CommandPalette::new();
    assert_eq!(p.handle_key(Key::press(KeyCode::Up)), PaletteKey::Handled);
    assert_eq!(p.selected, 0);
    p.handle_key(Key::press(KeyCode::Down));
    assert_eq!(p.selected, 1);
    assert_eq!(p.handle_key(Key::press(KeyCode::Tab)), PaletteKey::Execute { fill_only: true });
    assert_eq!(p.handle_key(Key::press(KeyCode::Char('x'))), PaletteKey::Pass);
    assert_eq!(p.handle_key(Key::press(KeyCode::Esc)), PaletteKey::Close);
    let idx = p.chosen().unwrap();
    assert_eq!(p.items[idx].label, "Review");
    assert!(matches!(palette_step(p.items[idx].action, false, true), PaletteStep::WizardReview));
    assert!(matches!(palette_step(p.items[idx].action, true, true), PaletteStep::Fill));
    let rename = PaletteAction::Prompt { title: "重命名会话", prompt: "新标题", kind: WizardKind::RenameSession };
    assert!(matches!(palette_step(rename, false, false), PaletteStep::NoSession));
    assert!(matches!(palette_step(rename, false, true), PaletteStep::Prompt { .. }));
    let create = PaletteAction::Prompt { title: "新建课程", prompt: "课程名", kind: WizardKind::CreateCourse };
    assert!(matches!(palette_step(create, false, true), PaletteStep::CreateCourse));
}

#[test]
fn list_picker_keys() {
    let mut p = picker();
    assert_eq!(p.handle_key("", Key::press(KeyCode::PageDown)), ListKey::Handled);
    assert_eq!(p.selected, 2);
    assert_eq!(p.handle_key("", Key::press(KeyCode::Enter)), ListKey::Choose(2));
    p.selected = 0;
    assert_eq!(p.handle_key("借用", Key::press(KeyCode::Enter)), ListKey::Choose(1));
    assert_eq!(p.handle_key("不存在", Key::press(KeyCode::Enter)), ListKey::Handled);
    assert_eq!(p.handle_key("", Key::press(KeyCode::Char('x'))), ListKey::Pass);
    assert_eq!(p.handle_key("", Key::press(KeyCode::Esc)), ListKey::Close);
}

#[test]
fn map_picker_keys_review_scope() {
    let map = ReviewMap {
        course: "rust".into(),
        sections: vec![OutlineSection {
            title: "所有权与借用".into(),
            nodes: vec![node(1, "所有权", 2, 2), node(2, "借用", 2, 1)],
            refs: vec![],
        }],
        unresolved: 0,
        titles: vec![],
        today_attempts: 0,
        today_reviewed: vec![],
    };
    let mut p = ReviewMapPicker::from_map(&map);
    match p.handle_key(Key::press(KeyCode::Enter), Some(1)) {
        MapKey::Review { course_id, scope } => {
            assert_eq!(course_id, 1);
            assert_eq!(scope, "所有权、借用");
        }
        _ => panic!("Enter on a section reviews it"),
    }
    p.handle_key(Key::press(KeyCode::Char('j')), Some(1));
    p.handle_key(Key::press(KeyCode::PageDown), Some(1));
    assert_eq!(p.selected, 2);
    match p.handle_key(Key::press(KeyCode::Enter), Some(1)) {
        MapKey::Review { scope, .. } => assert_eq!(scope, "借用"),
        _ => panic!("Enter on a concept reviews it"),
    }
    assert!(matches!(p.handle_key(Key::press(KeyCode::Enter), None), MapKey::Handled));
}

#[test]
fn matching_rows_by_lowercased_texts() {
    let rows = vec![
        vec!["open model".to_string(), "/model".to_string()],
        vec!["sessions".to_string()],
        vec![],
    ];
    assert_eq!(matching_rows(&rows, ""), vec![0, 1, 2]);
    assert_eq!(matching_rows(&rows, "mod"), vec![0]);
    assert_eq!(matching_rows(&rows, "s"), vec![1]);
    assert_eq!(matching_rows(&rows, "zzz"), Vec::<usize>::new());
}

#[test]
fn home_palette_keeps_only_continue_courses_and_settings() {
    let mut p = CommandPalette::new();
    p.apply_context(Workspace::Home, true);
    let allowed = ["New Conversation", "Recent Sessions", "New Course", "Switch Course", "Import Materials"];
    assert!(p.filtered.iter().all(|&i| p.items[i].group == PaletteGroup::Settings || allowed.contains(&p.items[i].label)));
    assert!(p.filtered.iter().all(|&i| p.items[i].label != "Rename Session" && p.items[i].label != "Export Conversation"));
    assert!(p.filtered.iter().all(|&i| p.items[i].label != "Review" && p.items[i].label != "Outline" && p.items[i].label != "Materials"));
    assert_eq!(p.selected, 0);
    assert_eq!(p.scroll, 0);
}

#[test]
fn palette_without_courses_drops_only_course_bound_items() {
    for w in [Workspace::Home, Workspace::Course, Workspace::Session] {
        let mut with = CommandPalette::new();
        with.apply_context(w, true);
        let mut without = CommandPalette::new();
        without.apply_context(w, false);
        let expected: Vec<usize> =
            with.filtered.iter().copied().filter(|&i| with.items[i].scope != PaletteScope::CurrentCourse).collect();
        assert_eq!(without.filtered, expected);
        assert!(without.filtered.windows(2).all(|p| p[0] < p[1]));
    }
}

#[test]
fn an_empty_filter_keeps_every_item() {
    let mut p = CommandPalette::new();
    p.refilter("zzzz-nothing");
    p.refilter("");
    assert_eq!(p.filtered, (0..p.items.len()).collect::<Vec<_>>());
}
