use studypilot::keys::{Key, KeyCode};
use studypilot::navigation::InputLine;
use studypilot::review_keys::{
    invalid_answer_message, judge_choice, review_key, ChoiceVerdict, ReviewKeyAction, ReviewKeyState,
};

fn choice(selected: Option<usize>) -> ReviewKeyState {
    ReviewKeyState {
        has_question: true,
        awaiting_feedback: false,
        followup_pending: false,
        is_choice: true,
        n_options: 4,
        selected_option: selected,
    }
}

fn short() -> ReviewKeyState {
    ReviewKeyState { is_choice: false, n_options: 0, ..choice(None) }
}

fn feedback(pending: bool) -> ReviewKeyState {
    ReviewKeyState { awaiting_feedback: true, followup_pending: pending, ..short() }
}

fn line(text: &str) -> InputLine {
    let mut l = InputLine::new();
    l.input = text.to_string();
    l.cursor_pos = text.chars().count();
    l
}

fn run(st: Option<ReviewKeyState>, grading: bool, l: &mut InputLine, key: Key) -> (ReviewKeyAction, u16) {
    let mut scroll: u16 = 5;
    let a = review_key(st, grading, l, &mut scroll, key);
    (a, scroll)
}

#[test]
fn page_keys_scroll_in_every_state() {
    let mut l = line("");
    let (a, s) = run(None, true, &mut l, Key::press(KeyCode::PageUp));
    assert!(matches!(a, ReviewKeyAction::Scrolled));
    assert_eq!(s, 15);
    let (a, s) = run(Some(short()), false, &mut l, Key::press(KeyCode::PageDown));
    assert!(matches!(a, ReviewKeyAction::Scrolled));
    assert_eq!(s, 0);
}

#[test]
fn grading_allows_only_leaving() {
    let mut l = line("x");
    let (a, _) = run(Some(choice(Some(1))), true, &mut l, Key::press(KeyCode::Enter));
    assert!(matches!(a, ReviewKeyAction::Ignored));
    let (a, _) = run(Some(choice(Some(1))), true, &mut l, Key::press(KeyCode::Char('a')));
    assert!(matches!(a, ReviewKeyAction::Ignored));
    let (a, _) = run(Some(choice(Some(1))), true, &mut l, Key::press(KeyCode::Esc));
    assert!(matches!(a, ReviewKeyAction::ExitDiscardingGrade));
    assert_eq!(l.input, "x");
}

#[test]
fn no_question_yet_only_esc() {
    let st = ReviewKeyState { has_question: false, ..short() };
    let mut l = line("");
    assert!(matches!(run(Some(st), false, &mut l, Key::press(KeyCode::Enter)).0, ReviewKeyAction::Ignored));
    assert!(matches!(run(Some(st), false, &mut l, Key::press(KeyCode::Esc)).0, ReviewKeyAction::Exit));
    assert!(matches!(run(None, false, &mut l, Key::press(KeyCode::Esc)).0, ReviewKeyAction::Ignored));
}

#[test]
fn choice_cursor_moves_within_the_options() {
    let mut l = line("");
    assert!(matches!(run(Some(choice(None)), false, &mut l, Key::press(KeyCode::Up)).0, ReviewKeyAction::SelectOption(0)));
    assert!(matches!(run(Some(choice(None)), false, &mut l, Key::press(KeyCode::Down)).0, ReviewKeyAction::SelectOption(1)));
    assert!(matches!(run(Some(choice(Some(3))), false, &mut l, Key::press(KeyCode::Down)).0, ReviewKeyAction::SelectOption(3)));
    assert!(matches!(run(Some(choice(Some(2))), false, &mut l, Key::press(KeyCode::Up)).0, ReviewKeyAction::SelectOption(1)));
    let none = ReviewKeyState { n_options: 0, ..choice(None) };
    assert!(matches!(run(Some(none), false, &mut l, Key::press(KeyCode::Down)).0, ReviewKeyAction::Ignored));
}

#[test]
fn choice_answers_by_enter_or_letter() {
    let mut l = line("");
    assert!(matches!(run(Some(choice(Some(2))), false, &mut l, Key::press(KeyCode::Enter)).0, ReviewKeyAction::SubmitChoice(2)));
    assert!(matches!(run(Some(choice(None)), false, &mut l, Key::press(KeyCode::Enter)).0, ReviewKeyAction::SubmitChoice(0)));
    assert!(matches!(run(Some(choice(None)), false, &mut l, Key::press(KeyCode::Char('c'))).0, ReviewKeyAction::SubmitChoice(2)));
    assert!(matches!(run(Some(choice(None)), false, &mut l, Key::press(KeyCode::Char('B'))).0, ReviewKeyAction::SubmitChoice(1)));
    let two = ReviewKeyState { n_options: 2, ..choice(None) };
    assert!(matches!(run(Some(two), false, &mut l, Key::press(KeyCode::Char('d'))).0, ReviewKeyAction::Ignored));
    assert!(matches!(run(Some(choice(None)), false, &mut l, Key::ctrl(KeyCode::Char('a'))).0, ReviewKeyAction::Ignored));
    assert!(matches!(run(Some(choice(None)), false, &mut l, Key::press(KeyCode::Char('x'))).0, ReviewKeyAction::Ignored));
    assert_eq!(l.input, "");
}

#[test]
fn short_answer_edits_and_hands_in() {
    let mut l = line("");
    for c in " 页表 ".chars() {
        assert!(matches!(run(Some(short()), false, &mut l, Key::press(KeyCode::Char(c))).0, ReviewKeyAction::Edited));
    }
    assert!(matches!(run(Some(short()), false, &mut l, Key::press(KeyCode::Left)).0, ReviewKeyAction::Edited));
    assert_eq!(l.cursor_pos, 3);
    run(Some(short()), false, &mut l, Key::press(KeyCode::Backspace));
    assert_eq!(l.input, " 页 ");
    match run(Some(short()), false, &mut l, Key::press(KeyCode::Enter)).0 {
        ReviewKeyAction::SubmitAnswer(a) => assert_eq!(a, "页"),
        other => panic!("unexpected {other:?}"),
    }
    assert_eq!(l.input, "");
    assert_eq!(l.cursor_pos, 0);
    let mut blank = line("   ");
    assert!(matches!(run(Some(short()), false, &mut blank, Key::press(KeyCode::Enter)).0, ReviewKeyAction::Ignored));
    assert_eq!(blank.input, "   ");
}

#[test]
fn feedback_stop_advances_or_asks_a_followup() {
    let mut l = line("");
    assert!(matches!(run(Some(feedback(false)), false, &mut l, Key::press(KeyCode::Enter)).0, ReviewKeyAction::Advance));
    let mut q = line("为什么?");
    assert!(matches!(run(Some(feedback(false)), false, &mut q, Key::press(KeyCode::Enter)).0, ReviewKeyAction::SubmitFollowup));
    assert!(matches!(run(Some(feedback(false)), false, &mut q, Key::press(KeyCode::Home)).0, ReviewKeyAction::Edited));
    assert_eq!(q.cursor_pos, 0);
    assert!(matches!(run(Some(feedback(false)), false, &mut q, Key::press(KeyCode::Delete)).0, ReviewKeyAction::Edited));
    assert_eq!(q.input, "什么?");
    assert!(matches!(run(Some(feedback(false)), false, &mut q, Key::press(KeyCode::Esc)).0, ReviewKeyAction::Exit));
}

#[test]
fn pending_followup_only_stops_on_esc() {
    let mut l = line("q");
    assert!(matches!(run(Some(feedback(true)), false, &mut l, Key::press(KeyCode::Enter)).0, ReviewKeyAction::Ignored));
    assert!(matches!(run(Some(feedback(true)), false, &mut l, Key::press(KeyCode::Char('x'))).0, ReviewKeyAction::Ignored));
    assert!(matches!(run(Some(feedback(true)), false, &mut l, Key::press(KeyCode::Esc)).0, ReviewKeyAction::CancelFollowup));
    assert_eq!(l.input, "q");
}

#[test]
fn releases_are_ignored() {
    let mut l = line("");
    let key = Key { code: KeyCode::PageUp, ctrl: false, press: false };
    let (a, s) = run(Some(short()), false, &mut l, key);
    assert!(matches!(a, ReviewKeyAction::Ignored));
    assert_eq!(s, 5);
}

#[test]
fn choice_judgement() {
    assert!(judge_choice(4, 4, Some(1)).is_none());
    assert!(matches!(judge_choice(0, 4, None), Some(ChoiceVerdict::MissingAnswer)));
    assert!(matches!(judge_choice(0, 4, Some(4)), Some(ChoiceVerdict::InvalidAnswer(4))));
    assert!(matches!(judge_choice(0, 4, Some(-1)), Some(ChoiceVerdict::InvalidAnswer(-1))));
    match judge_choice(2, 4, Some(2)) {
        Some(ChoiceVerdict::Judged { correct, feedback }) => {
            assert!(correct);
            assert_eq!(feedback, "✓ 正确（选 C）");
        }
        other => panic!("unexpected {other:?}"),
    }
    match judge_choice(0, 4, Some(3)) {
        Some(ChoiceVerdict::Judged { correct, feedback }) => {
            assert!(!correct);
            assert_eq!(feedback, "✗ 错误（选 A，正确答案: D）");
        }
        other => panic!("unexpected {other:?}"),
    }
    assert_eq!(invalid_answer_message(-2), "该题答案下标非法 (-2)，跳过");
}
