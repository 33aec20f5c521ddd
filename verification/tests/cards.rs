use studypilot::cards::{outline_failure_entry, review_failure_entry};
use studypilot::events::Entry;
use studypilot::cards;

#[test]
fn summary_without_session_shows_get_started() {
    let md = cards::course_summary("Rust", 5, 65, 3, None);
    assert!(md.contains("5 notes · 65 concepts · △ 3 need reinforcement"));
    assert!(!md.contains("Continue"), "no made-up history: {md}");
    assert!(md.contains("Your course is ready"));
    assert!(md.contains("`/review` to practice"));
    assert!(md.contains("`/outline` to view your knowledge map"));
    let empty = cards::course_summary("Rust", 0, 0, 0, None);
    assert!(empty.contains("0 notes · 0 concepts"));
    assert!(empty.contains("No materials yet."));
}

#[test]
fn summary_with_session_shows_continue() {
    let md = cards::course_summary("Rust", 5, 65, 3, Some("Ownership & Borrowing"));
    assert!(md.contains("**Continue:** Ownership & Borrowing"));
    assert!(md.contains("`/review` · `/review-map` · `/outline` · `/import`"));
    assert!(!md.contains("Your course is ready"));
}

#[test]
fn welcome_and_empty_cards_are_concise() {
    for md in [cards::welcome_guide(), cards::empty_review(), cards::empty_outline()] {
        assert!(md.starts_with("# "), "a card starts with a title");
        assert!(md.contains("`/"), "commands are inline code");
    }
}

#[test]
fn lines_are_joined_with_newlines() {
    assert_eq!(cards::join_lines(&["a", "b", "c"]), "a\nb\nc");
    assert_eq!(cards::join_lines(&[]), "");
}

#[test]
fn failure_entries_turn_empty_courses_into_guidance() {
    assert!(matches!(review_failure_entry("课程 rust 还没有笔记"), Entry::Markdown(m) if m == cards::empty_review()));
    assert!(matches!(review_failure_entry("网络错误"), Entry::Error(m) if m == "出题失败: 网络错误"));
    assert!(matches!(outline_failure_entry("还没有概念，先导入"), Entry::Markdown(m) if m == cards::empty_outline()));
    assert!(matches!(outline_failure_entry("还没有笔记"), Entry::Markdown(m) if m == cards::empty_outline()));
    assert!(matches!(outline_failure_entry("超时"), Entry::Error(m) if m == "复习地图生成失败: 超时"));
}
