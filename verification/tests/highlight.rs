use studypilot::highlight::{highlight_lines, lang_tag, Engine};

#[test]
fn rust_keywords_get_colored() {
    let engine = Engine::load();
    let lines = highlight_lines(&engine, "let s1 = String::from(\"hi\");\n", "rust");
    assert_eq!(lines.len(), 1);
    let colors: Vec<_> = lines[0].iter().map(|(c, _)| *c).collect();
    assert!(colors.len() >= 3, "tokens not split by colour: {colors:?}");
    let let_color = lines[0].iter().find(|(_, t)| t == "let").map(|(c, _)| *c).expect("a let token");
    assert_eq!(let_color, (0xB4, 0x8E, 0xAD));
}

#[test]
fn unknown_lang_falls_back_to_plain() {
    let engine = Engine::load();
    let lines = highlight_lines(&engine, "hello\n", "not-a-lang");
    assert_eq!(lines.len(), 1);
}

#[test]
fn empty_code_yields_one_row() {
    let engine = Engine::load();
    assert_eq!(highlight_lines(&engine, "", "rust").len(), 1);
}

#[test]
fn lang_tag_extraction() {
    assert_eq!(lang_tag("rust,ignore"), Some("rust".into()));
    assert_eq!(lang_tag("  Python "), Some("python".into()));
    assert_eq!(lang_tag(""), None);
}

#[test]
fn two_lines_give_two_rows() {
    let engine = Engine::load();
    let rows = highlight_lines(&engine, "fn a() {}\nfn b() {}", "rs");
    assert_eq!(rows.len(), 2);
    let text: String = rows[1].iter().map(|(_, t)| t.as_str()).collect();
    assert_eq!(text, "fn b() {}");
}

#[test]
fn fence_languages_find_their_syntax() {
    let engine = Engine::load();
    assert_eq!(studypilot::highlight::find_syntax(&engine.ps, "rust").name, "Rust");
    assert_eq!(studypilot::highlight::find_syntax(&engine.ps, " rs ").name, "Rust");
    assert_eq!(studypilot::highlight::find_syntax(&engine.ps, "..py").name, "Python");
    assert_eq!(studypilot::highlight::find_syntax(&engine.ps, "no-such-language").name, "Plain Text");
    assert_eq!(studypilot::highlight::find_syntax(&engine.ps, "").name, "Plain Text");
}

#[test]
fn blank_fence_fields_have_no_language() {
    assert_eq!(lang_tag(""), None);
    assert_eq!(lang_tag("   ,rust"), None);
    assert_eq!(lang_tag(" RuSt ,ignore"), Some("rust".to_string()));
    assert_eq!(lang_tag("Py"), Some("py".to_string()));
}

#[test]
fn the_fence_language_decides_the_colours() {
    let engine = Engine::load();
    let code = "fn main() { let x = 1; }\n";
    let as_rust = highlight_lines(&engine, code, "rust");
    let as_text = highlight_lines(&engine, code, "text");
    assert_ne!(as_rust, as_text);
    assert_eq!(as_text[0].len(), 1);
    assert!(as_rust[0].len() > 1);
}
