use studypilot::keys::{Key, KeyCode};
use studypilot::setup::{
    handle_setup_key, setup_back, setup_next, setup_select, setup_test_all_passed,
    split_custom_models, ProviderPreset, SetupOutcome, SetupState, SetupStep,
};

fn preset(id: &str, name: &str, models: &[&str]) -> ProviderPreset {
    ProviderPreset {
        id: id.into(),
        display_name: name.into(),
        models: models.iter().map(|m| m.to_string()).collect(),
    }
}

fn presets() -> Vec<ProviderPreset> {
    vec![
        preset("deepseek", "DeepSeek", &["deepseek-reasoner", "deepseek-chat"]),
        preset("glm", "GLM (Zhipu)", &["glm-4.6", "glm-4.5-air"]),
        preset("openai", "OpenAI", &["gpt-4o", "gpt-4o-mini"]),
    ]
}

fn key(app: &mut Option<SetupState>, code: KeyCode) -> SetupOutcome {
    handle_setup_key(app, Key::press(code), &presets())
}

fn type_chars(app: &mut Option<SetupState>, s: &str) {
    for c in s.chars() {
        key(app, KeyCode::Char(c));
    }
}

fn enter(app: &mut Option<SetupState>) -> SetupOutcome {
    key(app, KeyCode::Enter)
}

fn st(app: &Option<SetupState>) -> &SetupState {
    app.as_ref().unwrap()
}

#[test]
fn setup_state_transitions() {
    let ps = presets();
    let mut s = SetupState::new();
    assert_eq!(s.step, SetupStep::Provider);
    setup_select(&mut s, &ps);
    assert_eq!(s.step, SetupStep::Model);
    assert_eq!(s.provider.as_deref(), Some("deepseek"));
    setup_select(&mut s, &ps);
    assert_eq!(s.step, SetupStep::Credentials);
}

#[test]
fn provider_selection_lists_registry_and_custom() {
    let s = SetupState::new();
    let opts = s.provider_options(&presets());
    let names: Vec<&str> = opts.iter().map(|(_, n)| n.as_str()).collect();
    assert!(names.contains(&"DeepSeek"));
    assert!(names.contains(&"GLM (Zhipu)"));
    assert!(names.contains(&"OpenAI"));
    assert!(names.contains(&"Custom OpenAI-compatible"));
}

#[test]
fn model_selection_from_registry() {
    let mut s = SetupState::new();
    s.provider = Some("deepseek".into());
    s.cursor = 0;
    let models = s.model_options(&presets());
    assert!(models.contains(&"deepseek-reasoner".to_string()));
}

#[test]
fn secret_input_masking_preserves_typed_value() {
    let mut app = Some(SetupState::new());
    app.as_mut().unwrap().step = SetupStep::Credentials;
    key(&mut app, KeyCode::Char('s'));
    key(&mut app, KeyCode::Char('k'));
    assert_eq!(st(&app).secret_buf, "sk");
    enter(&mut app);
    assert_eq!(st(&app).api_key, "sk");
}

#[test]
fn esc_back_navigation_walks_steps() {
    let mut app = Some(SetupState::new());
    app.as_mut().unwrap().step = SetupStep::Done;
    setup_back(&mut app);
    assert_eq!(st(&app).step, SetupStep::Test);
    setup_back(&mut app);
    assert_eq!(st(&app).step, SetupStep::Credentials);
    setup_back(&mut app);
    assert_eq!(st(&app).step, SetupStep::Model);
    setup_back(&mut app);
    assert_eq!(st(&app).step, SetupStep::Provider);
    setup_back(&mut app);
    assert!(app.is_none(), "Esc on the provider list closes the wizard");
}

#[test]
fn custom_provider_ui_walkthrough() {
    let ps = presets();
    let mut app = Some(SetupState::new());
    let custom_idx = st(&app).provider_options(&ps).len() - 1;
    app.as_mut().unwrap().cursor = custom_idx;
    enter(&mut app);
    assert_eq!(st(&app).step, SetupStep::CustomName);
    type_chars(&mut app, "my-llm");
    enter(&mut app);
    assert_eq!(st(&app).custom_name, "my-llm");
    assert_eq!(st(&app).step, SetupStep::CustomBaseUrl);
    type_chars(&mut app, "http://localhost:8000/v1");
    enter(&mut app);
    assert_eq!(st(&app).custom_base_url, "http://localhost:8000/v1");
    assert_eq!(st(&app).step, SetupStep::CustomModel);
    type_chars(&mut app, "model-x");
    enter(&mut app);
    assert_eq!(st(&app).custom_model, "model-x");
    assert_eq!(st(&app).step, SetupStep::Credentials);
    type_chars(&mut app, "sk-custom");
    let out = enter(&mut app);
    assert_eq!(out, SetupOutcome::Handled, "Enter on the key only moves to the test step");
    assert_eq!(st(&app).api_key, "sk-custom");
    assert_eq!(st(&app).step, SetupStep::Test);
    assert_eq!(st(&app).custom_display_name(), "my-llm");
    assert_eq!(st(&app).custom_model_list(), vec!["model-x"]);
}

#[test]
fn custom_provider_name_paratera_is_preserved() {
    let mut s = SetupState::new();
    s.provider = Some("custom".into());
    s.custom_name = "paratera".into();
    s.custom_base_url = "https://api.paratera.cn/v1".into();
    s.custom_model = "Qwen3.7-Plus, Deepseek-V4-Flash-0731, GLM-5.3-Flash".into();
    s.api_key = "sk-paratera".into();
    let name = s.custom_display_name();
    assert_eq!(name, "paratera");
    assert!(!name.contains("custom"));
    assert_eq!(s.custom_model_list()[0], "Qwen3.7-Plus");
}

#[test]
fn custom_provider_multi_models_split_and_trim() {
    let raw_model = " Qwen3.7-Plus ,Deepseek-V4-Flash-0731,  GLM-5.3-Flash ,";
    let list = split_custom_models(raw_model);
    assert_eq!(list, vec!["Qwen3.7-Plus", "Deepseek-V4-Flash-0731", "GLM-5.3-Flash"]);
    let mut s = SetupState::new();
    s.custom_model = raw_model.into();
    let models = s.custom_model_list();
    assert_eq!(models.len(), 3);
    assert_eq!(models[0], "Qwen3.7-Plus");
    assert_eq!(models.iter().filter(|m| m.contains(',')).count(), 0);
}

#[test]
fn split_custom_models_supports_cn_separators() {
    for input in [
        "Qwen3.7-Plus、Deepseek-V4-Flash-0731、GLM-5.3-Flash",
        "Qwen3.7-Plus；Deepseek-V4-Flash-0731;GLM-5.3-Flash",
        "Qwen3.7-Plus，Deepseek-V4-Flash-0731， GLM-5.3-Flash",
        "Qwen3.7-Plus\nDeepseek-V4-Flash-0731\r\n GLM-5.3-Flash",
    ] {
        let list = split_custom_models(input);
        assert_eq!(
            list,
            vec!["Qwen3.7-Plus", "Deepseek-V4-Flash-0731", "GLM-5.3-Flash"],
            "separator in {input:?} must give three models"
        );
    }
    assert_eq!(
        split_custom_models("Qwen3.7-Plus, DS V4 Flash, GLM-5.3-Flash"),
        vec!["Qwen3.7-Plus", "DS V4 Flash", "GLM-5.3-Flash"]
    );
}

#[test]
fn multi_model_test_result_requires_all_pass() {
    let all_ok = "deepseek-reasoner ✓ 连接成功 · 服务可用\ndeepseek-chat ✓ 连接成功 · 服务可用";
    assert!(setup_test_all_passed(all_ok));
    let one_fail = "deepseek-reasoner ✓ 连接成功 · 服务可用\ndeepseek-chat ✗ 连接失败（HTTP 400）: invalid model";
    assert!(!setup_test_all_passed(one_fail));
    assert!(setup_test_all_passed("✓ 连接成功 · 服务可用\n响应: ping"));
    assert!(!setup_test_all_passed("✗ 连接失败（HTTP 401）: unauthorized"));
}

#[test]
fn preset_multi_model_selection_keeps_all_in_config() {
    let ps = presets();
    let mut app = Some(SetupState::new());
    let pos = st(&app).provider_options(&ps).iter().position(|(id, _)| id == "deepseek").unwrap_or(0);
    app.as_mut().unwrap().cursor = pos;
    enter(&mut app);
    assert_eq!(st(&app).step, SetupStep::Model);
    let opts = st(&app).model_options(&ps);
    assert!(opts.len() >= 2);
    app.as_mut().unwrap().cursor = 0;
    key(&mut app, KeyCode::Char(' '));
    app.as_mut().unwrap().cursor = 1;
    key(&mut app, KeyCode::Char(' '));
    assert_eq!(st(&app).selected_models.len(), 2);
    enter(&mut app);
    assert_eq!(st(&app).step, SetupStep::Credentials);
    let ids = &st(&app).selected_models;
    assert!(ids.contains(&"deepseek-reasoner".to_string()));
    assert!(ids.contains(&"deepseek-chat".to_string()));
    assert_eq!(st(&app).model.as_deref(), Some("deepseek-reasoner"));
}

#[test]
fn custom_esc_back_walks_steps() {
    let mut app = Some(SetupState::new());
    app.as_mut().unwrap().step = SetupStep::CustomModel;
    key(&mut app, KeyCode::Esc);
    assert_eq!(st(&app).step, SetupStep::CustomBaseUrl);
    key(&mut app, KeyCode::Esc);
    assert_eq!(st(&app).step, SetupStep::CustomName);
    key(&mut app, KeyCode::Esc);
    assert_eq!(st(&app).step, SetupStep::Provider);
    key(&mut app, KeyCode::Esc);
    assert!(app.is_none());
}

#[test]
fn test_step_advances_to_done_after_success_only() {
    let mut app = Some(SetupState::new());
    app.as_mut().unwrap().step = SetupStep::Credentials;
    type_chars(&mut app, "bad-key");
    enter(&mut app);
    assert_eq!(st(&app).step, SetupStep::Test);
    assert!(!st(&app).test_passed);
    let passed = app.as_mut().unwrap().record_test_result("✗ 连接失败（HTTP 401）: invalid key".into());
    assert!(!passed);
    assert_eq!(st(&app).step, SetupStep::Test);
    assert!(!st(&app).test_passed);
    key(&mut app, KeyCode::Esc);
    assert_eq!(st(&app).step, SetupStep::Credentials);
    assert!(st(&app).secret_buf.is_empty());
    type_chars(&mut app, "good-key");
    enter(&mut app);
    assert_eq!(st(&app).api_key, "good-key");
    assert_eq!(st(&app).step, SetupStep::Test);
    let passed = app.as_mut().unwrap().record_test_result("✓ 连接成功 · 服务可用".into());
    assert!(passed);
    assert!(st(&app).test_passed);
    assert_eq!(st(&app).step, SetupStep::Done);
    enter(&mut app);
    assert!(app.is_none());
}

#[test]
fn reentering_credentials_overwrites_old_key() {
    let mut app = Some(SetupState::new());
    app.as_mut().unwrap().step = SetupStep::Credentials;
    type_chars(&mut app, "old-key");
    enter(&mut app);
    assert_eq!(st(&app).api_key, "old-key");
    key(&mut app, KeyCode::Esc);
    type_chars(&mut app, "new-key");
    enter(&mut app);
    assert_eq!(st(&app).api_key, "new-key");
}

#[test]
fn custom_name_defaults_to_custom() {
    let mut s = SetupState::new();
    s.custom_name = "   ".into();
    assert_eq!(s.custom_display_name(), "custom");
}

#[test]
fn next_step_order() {
    let mut s = SetupState::new();
    setup_next(&mut s);
    assert_eq!(s.step, SetupStep::Model);
    setup_next(&mut s);
    assert_eq!(s.step, SetupStep::Credentials);
    s.test_passed = true;
    setup_next(&mut s);
    assert_eq!(s.step, SetupStep::Test);
    assert!(!s.test_passed, "a new key needs a new test");
}

#[test]
fn released_keys_are_ignored() {
    let mut app = Some(SetupState::new());
    let k = Key { code: KeyCode::Enter, ctrl: false, press: false };
    assert_eq!(handle_setup_key(&mut app, k, &presets()), SetupOutcome::Ignored);
    assert_eq!(st(&app).step, SetupStep::Provider);
}

#[test]
fn custom_model_names_are_clean() {
    let seps = [',', '，', '、', ';', '；', '\n', '\r'];
    for input in ["  a ,, b\n\r c ;；、", " ，\t", "Model One；Model Two、"] {
        for name in split_custom_models(input) {
            assert!(!name.is_empty());
            assert_eq!(name.trim(), name);
            assert!(!name.chars().any(|c| seps.contains(&c)));
        }
    }
    assert_eq!(split_custom_models(" ，\t"), Vec::<String>::new());
}
