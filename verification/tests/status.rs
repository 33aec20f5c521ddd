use studypilot::status::{status_label, ReviewProgress, StatusKind};

#[test]
fn review_progress_comes_first() {
    let p = ReviewProgress { current: 1, planned: 5, has_question: true };
    assert_eq!(status_label(Some(p), false, true, true), ("◌ Review 2/5".to_string(), StatusKind::Processing));
    assert_eq!(status_label(Some(p), true, false, false), ("◌ Review 2/5 · Grading…".to_string(), StatusKind::Processing));
    let waiting = ReviewProgress { current: 5, planned: 5, has_question: false };
    assert_eq!(status_label(Some(waiting), false, false, false).0, "◌ Review 5/5 · Generating…");
    assert_eq!(status_label(Some(waiting), true, false, false).0, "◌ Review 5/5 · Grading…");
}

#[test]
fn import_then_thinking_then_ready() {
    assert_eq!(status_label(None, false, true, true), ("◌ 导入中…".to_string(), StatusKind::Processing));
    assert_eq!(status_label(None, false, false, true), ("◌ Thinking…".to_string(), StatusKind::Processing));
    assert_eq!(status_label(None, false, false, false), ("● Ready".to_string(), StatusKind::Success));
}
