use studypilot::cards::{course_summary, empty_outline, empty_review, welcome_guide};
use studypilot::highlight::Engine;
use studypilot::markdown::{
    render_events, render_markdown, wrap_measured, LineBuffer, MdEvent, MdTag, SpanStyle, StyleState, StyledLine,
    Tint,
};

fn plain(lines: &[StyledLine]) -> String {
    lines
        .iter()
        .map(|l| l.spans.iter().map(|s| s.text.as_str()).collect::<String>())
        .collect::<Vec<_>>()
        .join("\n")
}

fn render(text: &str, width: usize) -> Vec<StyledLine> {
    let engine = Engine::load();
    render_markdown(&engine, text, width)
}

#[test]
fn bold_survives_flushing() {
    let lines = render("plain **bold part** end", 40);
    assert_eq!(plain(&lines).trim_end_matches('\n'), "plain bold part end");
    let has_bold_span = lines
        .iter()
        .any(|l| l.spans.iter().any(|s| s.text == "bold part" && s.style.bold));
    assert!(has_bold_span, "bold lost: {lines:?}");
}

#[test]
fn ref_marker_is_blue_across_wrap() {
    let long_text = format!("{}{}", "字".repeat(28), "引用见[1]结束");
    let lines = render(&long_text, 30);
    let blue_found = lines
        .iter()
        .any(|l| l.spans.iter().any(|s| s.text.contains("[1]") && s.style.fg == Some(Tint::Reference)));
    assert!(blue_found, "[n] not coloured: {lines:?}");
}

#[test]
fn ref_marker_detected_across_pulldown_event_splits() {
    let lines = render("前[7]后", 60);
    let blue_found = lines
        .iter()
        .any(|l| l.spans.iter().any(|s| s.text == "[7]" && s.style.fg == Some(Tint::Reference)));
    assert!(blue_found, "split [n] not found: {lines:?}");
}

#[test]
fn inline_code_gets_dedicated_fg_no_bg() {
    let lines = render("使用 `let x = 1;` 声明", 60);
    let code_styled = lines.iter().any(|l| {
        l.spans
            .iter()
            .any(|s| s.text.contains("let x") && s.style.fg == Some(Tint::CodeInline))
    });
    assert!(code_styled, "inline code style: {lines:?}");
}

#[test]
fn wrapping_splits_long_paragraph_by_width() {
    let lines = render(&"甲".repeat(10), 4);
    let rows: Vec<_> = lines
        .iter()
        .filter(|l| plain(std::slice::from_ref(l)).chars().count() > 0)
        .collect();
    assert_eq!(rows.len(), 5, "rows: {lines:?}");
    assert!(rows.iter().all(|l| plain(std::slice::from_ref(l)).chars().count() == 2));
}

#[test]
fn fenced_rust_block_is_highlighted() {
    let lines = render("```rust\nlet x = 1;\n```\n", 80);
    let text: Vec<String> = lines
        .iter()
        .map(|l| l.spans.iter().map(|s| s.text.as_str()).collect())
        .collect();
    assert!(text.iter().any(|t| t.contains("── rust ──")), "{text:?}");
    let code_row = lines
        .iter()
        .find(|l| l.spans.iter().any(|s| s.text.contains("let")))
        .expect("a code row");
    let has_keyword_color = code_row
        .spans
        .iter()
        .any(|s| s.style.fg == Some(Tint::Rgb(0xB4, 0x8E, 0xAD)) && s.text.contains("let"));
    assert!(has_keyword_color, "let not coloured: {code_row:?}");
    assert!(text.iter().any(|t| t.starts_with("───")));
}

#[test]
fn unknown_lang_still_renders() {
    let lines = render("```\nplain text\n```\n", 80);
    assert!(lines.iter().any(|l| l.spans.iter().any(|s| s.text.contains("plain text"))));
}

#[test]
fn cards_render_preserve_all_content() {
    let w = plain(&render(&welcome_guide(), 80));
    for needle in ["StudyPilot", "Create a course", "<course name>", "<path>", "/help"] {
        assert!(w.contains(needle), "welcome lost: {needle}\n{w}");
    }
    let c = plain(&render(&course_summary("Rust", 5, 65, 3, Some("Ownership & Borrowing")), 80));
    for needle in ["Rust", "5 notes", "△ 3 need reinforcement", "Continue", "Ownership & Borrowing", "/review-map"] {
        assert!(c.contains(needle), "summary lost: {needle}\n{c}");
    }
    let ready = plain(&render(&course_summary("Rust", 5, 65, 0, None), 80));
    for needle in ["Your course is ready", "/review to practice", "/import"] {
        assert!(ready.contains(needle), "ready lost: {needle}\n{ready}");
    }
    for md in [empty_review(), empty_outline()] {
        let p = plain(&render(&md, 80));
        assert!(p.contains("<path>"), "empty card lost:\n{p}");
    }
}

#[test]
fn headings_lists_and_zero_width() {
    assert!(render("# Title", 0).is_empty());
    let lines = render("# Title\n\n## Sub\n\n- a\n- c\n  - b\n", 40);
    let t = &lines[0].spans[0];
    assert_eq!(t.text, "Title");
    assert_eq!(t.style, SpanStyle { fg: Some(Tint::Heading), bold: true, italic: false });
    assert_eq!(lines[1].spans[0].style.fg, Some(Tint::SubHeading));
    let p = plain(&lines);
    assert!(p.contains("• a"));
    assert!(p.contains("  • b"));
    assert!(!p.contains("• c"), "an item's text before a nested list is dropped");
}

#[test]
fn empty_text_gives_one_line() {
    let lines = render("", 10);
    assert_eq!(lines.len(), 1);
    assert_eq!(plain(&lines), "");
}

#[test]
fn line_buffer_refs_and_breaks() {
    let mut b = LineBuffer::new();
    b.push_text_with_refs("a [12] [x] [3");
    b.newline();
    b.push_str("next");
    let base = SpanStyle { fg: Some(Tint::Body), bold: false, italic: false };
    let lines = b.flush_as_lines(80, base);
    assert_eq!(lines.len(), 2);
    assert_eq!(plain(&lines[..1]), "a [12] [x] [3");
    assert!(lines[0].spans.iter().any(|s| s.text == "[12]" && s.style.fg == Some(Tint::Reference)));
    assert!(lines[0].spans.iter().all(|s| s.text != "[x]" || s.style.fg == Some(Tint::Body)));
    assert_eq!(plain(&lines[1..]), "next");
    assert!(!b.is_empty());
    b.clear();
    assert!(b.is_empty());
    assert!(b.flush_as_lines(80, base).is_empty());
    let _ = StyleState { bold: false, italic: false, extra: None };
}

#[test]
fn rendering_a_given_event_stream() {
    let engine = Engine::load();
    let events = vec![
        MdEvent::Start(MdTag::Heading(1)),
        MdEvent::Text("Title".into()),
        MdEvent::End,
        MdEvent::Start(MdTag::Paragraph),
        MdEvent::Text("see ".into()),
        MdEvent::Text("[2]".into()),
        MdEvent::End,
        MdEvent::Start(MdTag::List),
        MdEvent::Start(MdTag::Item),
        MdEvent::Text("one".into()),
        MdEvent::End,
        MdEvent::End,
    ];
    let lines = render_events(&engine, &events, "ignored", 40);
    assert_eq!(plain(&lines), "Title\nsee [2]\n\n• one");
    assert_eq!(lines[0].spans[0].style.fg, Some(Tint::Heading));
    assert!(lines[0].spans[0].style.bold);
    assert!(lines[1].spans.iter().any(|s| s.text == "[2]" && s.style.fg == Some(Tint::Reference)));
    assert!(render_events(&engine, &events, "x", 0).is_empty());
    let none = render_events(&engine, &Vec::new(), "raw text", 10);
    assert_eq!(plain(&none), "raw text");
    assert_eq!(none[0].spans[0].style.fg, Some(Tint::Body));
}

#[test]
fn wrapping_by_given_widths() {
    let st = SpanStyle { fg: None, bold: false, italic: false };
    let seg = |t: &str| t.chars().map(|c| (c, st)).collect::<Vec<_>>();
    let mut out: Vec<StyledLine> = Vec::new();
    wrap_measured(&mut out, &seg("abcd"), &vec![1, 1, 1, 1], 2);
    assert_eq!(plain(&out), "ab\ncd");
    let mut out: Vec<StyledLine> = Vec::new();
    wrap_measured(&mut out, &seg("xyz"), &vec![2, 0, 2], 2);
    assert_eq!(plain(&out), "xy\nz");
    let mut out: Vec<StyledLine> = Vec::new();
    wrap_measured(&mut out, &seg("ab"), &vec![3, 1], 2);
    assert_eq!(plain(&out), "a\nb");
    let mut out: Vec<StyledLine> = Vec::new();
    wrap_measured(&mut out, &seg(""), &vec![], 5);
    assert_eq!(out.len(), 1);
    assert!(out[0].spans.is_empty());
}
