//! Keys of the review workspace: answering a choice or short-answer
//! question, the feedback stop with its follow-up question, and scrolling.
use vstd::prelude::*;
use crate::input_edit::{
    delete_at, delete_at_spec, delete_before, delete_before_spec, insert_char, insert_spec,
};
use crate::keys::{Key, KeyCode};
use crate::navigation::{min_of, InputLine};
use crate::followup::{letter_of, option_letter};
use crate::palette::{signed_decimal, signed_decimal_string};
use crate::text::{chars_of, trim, trim_str};

verus! {

/// What the review keys read of the running review.
#[derive(Debug, Clone, Copy, PartialEq, Eq, Structural)]
pub struct ReviewKeyState {
    /// The current question has been generated.
    pub has_question: bool,
    /// The answer was judged; the feedback stays until Enter.
    pub awaiting_feedback: bool,
    /// A follow-up question is being answered.
    pub followup_pending: bool,
    /// The current question is a choice question.
    pub is_choice: bool,
    /// Options of the current question.
    pub n_options: usize,
    /// Option under the cursor.
    pub selected_option: Option<usize>,
}

/// What a key in the review workspace asks for.
#[derive(Debug, Clone)]
pub enum ReviewKeyAction {
    Ignored,
    /// The workspace scrolled (the new position is in `scroll_up`).
    Scrolled,
    /// Leave the review.
    Exit,
    /// Leave the review while an answer is being graded; the grade will not
    /// be recorded.
    ExitDiscardingGrade,
    /// Stop the follow-up answer (the feedback stays).
    CancelFollowup,
    /// Next question.
    Advance,
    /// Ask the typed follow-up question.
    SubmitFollowup,
    /// The answer line was edited.
    Edited,
    /// Move the option cursor to this option.
    SelectOption(usize),
    /// Answer the choice question with this option.
    SubmitChoice(usize),
    /// Grade this short answer (the line was cleared).
    SubmitAnswer(String),
}

/// The same without the answer text.
pub enum ReviewStep {
    Ignored,
    Scrolled,
    Exit,
    ExitDiscardingGrade,
    CancelFollowup,
    Advance,
    SubmitFollowup,
    Edited,
    SelectOption(usize),
    SubmitChoice(usize),
    SubmitAnswer,
}

impl View for ReviewKeyAction {
    type V = ReviewStep;

    open spec fn view(&self) -> ReviewStep {
        match self {
            ReviewKeyAction::Ignored => ReviewStep::Ignored,
            ReviewKeyAction::Scrolled => ReviewStep::Scrolled,
            ReviewKeyAction::Exit => ReviewStep::Exit,
            ReviewKeyAction::ExitDiscardingGrade => ReviewStep::ExitDiscardingGrade,
            ReviewKeyAction::CancelFollowup => ReviewStep::CancelFollowup,
            ReviewKeyAction::Advance => ReviewStep::Advance,
            ReviewKeyAction::SubmitFollowup => ReviewStep::SubmitFollowup,
            ReviewKeyAction::Edited => ReviewStep::Edited,
            ReviewKeyAction::SelectOption(i) => ReviewStep::SelectOption(*i),
            ReviewKeyAction::SubmitChoice(i) => ReviewStep::SubmitChoice(*i),
            ReviewKeyAction::SubmitAnswer(_) => ReviewStep::SubmitAnswer,
        }
    }
}

/// An editing key on the answer line: the new text and cursor, or `None`
/// for a key that does not edit.
pub open spec fn edit_key_spec(s: Seq<char>, p: int, code: KeyCode) -> Option<(Seq<char>, int)> {
    match code {
        KeyCode::Char(c) => Some(insert_spec(s, p, c)),
        KeyCode::Backspace => Some(delete_before_spec(s, p)),
        KeyCode::Delete => Some((delete_at_spec(s, p), p)),
        KeyCode::Left => Some((s, if p > 0 {
            p - 1
        } else {
            0
        })),
        KeyCode::Right => Some((s, min_of(p + 1, s.len() as int))),
        KeyCode::Home => Some((s, 0)),
        KeyCode::End => Some((s, s.len() as int)),
        _ => None,
    }
}

/// The letter keys a-d (either case) pick options 0-3.
pub open spec fn letter_option(c: char) -> Option<int> {
    if 'a' <= c && c <= 'd' {
        Some(c as int - 'a' as int)
    } else if 'A' <= c && c <= 'D' {
        Some(c as int - 'A' as int)
    } else {
        None
    }
}

/// A key once a question is on screen and judged: Esc leaves, Enter on an
/// empty line goes on, Enter with text asks the follow-up question, and
/// the line edits; while the follow-up is answered only Esc (stopping it)
/// counts.
pub open spec fn feedback_step(st: ReviewKeyState, input: Seq<char>, key: Key) -> ReviewStep {
    if st.followup_pending {
        if key.code == KeyCode::Esc {
            ReviewStep::CancelFollowup
        } else {
            ReviewStep::Ignored
        }
    } else {
        match key.code {
            KeyCode::Esc => ReviewStep::Exit,
            KeyCode::Enter => if trim(input).len() == 0 {
                ReviewStep::Advance
            } else {
                ReviewStep::SubmitFollowup
            },
            KeyCode::Char(_) => if key.ctrl {
                ReviewStep::Ignored
            } else {
                ReviewStep::Edited
            },
            KeyCode::Backspace | KeyCode::Delete | KeyCode::Left | KeyCode::Right | KeyCode::Home
            | KeyCode::End => ReviewStep::Edited,
            _ => ReviewStep::Ignored,
        }
    }
}

/// A key while answering: Esc leaves; on a choice question Up/Down move the
/// option cursor, Enter answers with it, a-d answer directly; on a
/// short-answer question the line edits and Enter hands in a non-blank
/// answer.
pub open spec fn answer_step(st: ReviewKeyState, input: Seq<char>, key: Key) -> ReviewStep {
    match key.code {
        KeyCode::Esc => ReviewStep::Exit,
        KeyCode::Up => if st.is_choice && st.n_options > 0 {
            let cur = match st.selected_option {
                Some(k) => k,
                None => 0,
            };
            ReviewStep::SelectOption(if cur > 0 {
                (cur - 1) as usize
            } else {
                0
            })
        } else {
            ReviewStep::Ignored
        },
        KeyCode::Down => if st.is_choice && st.n_options > 0 {
            let cur = match st.selected_option {
                Some(k) => k,
                None => 0,
            };
            ReviewStep::SelectOption(min_of(cur + 1, st.n_options - 1) as usize)
        } else {
            ReviewStep::Ignored
        },
        KeyCode::Enter => if st.is_choice {
            ReviewStep::SubmitChoice(
                match st.selected_option {
                    Some(k) => k,
                    None => 0,
                },
            )
        } else if trim(input).len() == 0 {
            ReviewStep::Ignored
        } else {
            ReviewStep::SubmitAnswer
        },
        KeyCode::Char(c) => if key.ctrl {
            ReviewStep::Ignored
        } else if st.is_choice {
            match letter_option(c) {
                Some(i) => if i < st.n_options {
                    ReviewStep::SubmitChoice(i as usize)
                } else {
                    ReviewStep::Ignored
                },
                None => ReviewStep::Ignored,
            }
        } else {
            ReviewStep::Edited
        },
        KeyCode::Backspace | KeyCode::Delete | KeyCode::Left | KeyCode::Right | KeyCode::Home
        | KeyCode::End => if st.is_choice {
            ReviewStep::Ignored
        } else {
            ReviewStep::Edited
        },
        _ => ReviewStep::Ignored,
    }
}

/// What a key in the review workspace does.  Only presses count; PageUp and
/// PageDown always scroll; while an answer is graded only Esc (leaving)
/// counts; before the current question exists only Esc counts.
pub open spec fn review_step(review: Option<ReviewKeyState>, grading: bool, input: Seq<char>, key: Key) -> ReviewStep {
    if !key.press {
        ReviewStep::Ignored
    } else if key.code == KeyCode::PageUp || key.code == KeyCode::PageDown {
        ReviewStep::Scrolled
    } else if grading {
        if key.code == KeyCode::Esc {
            ReviewStep::ExitDiscardingGrade
        } else {
            ReviewStep::Ignored
        }
    } else {
        match review {
            None => ReviewStep::Ignored,
            Some(st) => if !st.has_question {
                if key.code == KeyCode::Esc {
                    ReviewStep::Exit
                } else {
                    ReviewStep::Ignored
                }
            } else if st.awaiting_feedback {
                feedback_step(st, input, key)
            } else {
                answer_step(st, input, key)
            },
        }
    }
}

/// Applies an editing key to the line.
fn edit_line(line: &mut InputLine, code: KeyCode)
    requires
        old(line).cursor_pos < usize::MAX,
        edit_key_spec(old(line).input@, old(line).cursor_pos as int, code) is Some,
    ensures
        final(line).backup == old(line).backup,
        edit_key_spec(old(line).input@, old(line).cursor_pos as int, code) == Some(
            (final(line).input@, final(line).cursor_pos as int),
        ),
{
    match code {
        KeyCode::Char(c) => {
            line.cursor_pos = insert_char(&mut line.input, line.cursor_pos, c);
        },
        KeyCode::Backspace => {
            line.cursor_pos = delete_before(&mut line.input, line.cursor_pos);
        },
        KeyCode::Delete => {
            delete_at(&mut line.input, line.cursor_pos);
        },
        KeyCode::Left => {
            if line.cursor_pos > 0 {
                line.cursor_pos = line.cursor_pos - 1;
            }
        },
        KeyCode::Right => {
            let len = chars_of(line.input.as_str()).len();
            let next = line.cursor_pos + 1;
            line.cursor_pos = if next < len {
                next
            } else {
                len
            };
        },
        KeyCode::Home => {
            line.cursor_pos = 0;
        },
        KeyCode::End => {
            line.cursor_pos = chars_of(line.input.as_str()).len();
        },
        _ => {},
    }
}

fn letter_index(c: char) -> (r: Option<usize>)
    ensures
        match letter_option(c) {
            Some(i) => r == Some(i as usize),
            None => r is None,
        },
{
    if 'a' <= c && c <= 'd' {
        Some((c as u32 - 'a' as u32) as usize)
    } else if 'A' <= c && c <= 'D' {
        Some((c as u32 - 'A' as u32) as usize)
    } else {
        None
    }
}

/// A key in the review workspace: scrolls, edits the answer line, and says
/// what the review should do next.
pub fn review_key(
    review: Option<ReviewKeyState>,
    grading: bool,
    line: &mut InputLine,
    scroll_up: &mut u16,
    key: Key,
) -> (r: ReviewKeyAction)
    requires
        old(line).cursor_pos < usize::MAX,
    ensures
        ({
            let s = old(line).input@;
            let p = old(line).cursor_pos as int;
            let step = review_step(review, grading, s, key);
            &&& r@ == step
            &&& final(line).backup == old(line).backup
            &&& match step {
                ReviewStep::Edited => edit_key_spec(s, p, key.code) == Some(
                    (final(line).input@, final(line).cursor_pos as int),
                ),
                ReviewStep::SubmitAnswer => final(line).input@.len() == 0 && final(line).cursor_pos
                    == 0 && (r matches ReviewKeyAction::SubmitAnswer(a) && a@ == trim(s)),
                _ => final(line).input@ == s && final(line).cursor_pos == old(line).cursor_pos,
            }
            &&& *final(scroll_up) == (if step is Scrolled {
                if key.code == KeyCode::PageUp {
                    min_of(*old(scroll_up) + 10, u16::MAX as int)
                } else {
                    if *old(scroll_up) >= 10 {
                        *old(scroll_up) - 10
                    } else {
                        0
                    }
                }
            } else {
                *old(scroll_up) as int
            })
        }),
{
    if !key.press {
        return ReviewKeyAction::Ignored;
    }
    match key.code {
        KeyCode::PageUp => {
            *scroll_up = scroll_up.saturating_add(10);
            return ReviewKeyAction::Scrolled;
        },
        KeyCode::PageDown => {
            *scroll_up = scroll_up.saturating_sub(10);
            return ReviewKeyAction::Scrolled;
        },
        _ => {},
    }
    if grading {
        if key.code == KeyCode::Esc {
            return ReviewKeyAction::ExitDiscardingGrade;
        }
        return ReviewKeyAction::Ignored;
    }
    let st = match review {
        Some(st) => st,
        None => {
            return ReviewKeyAction::Ignored;
        },
    };
    if !st.has_question {
        if key.code == KeyCode::Esc {
            return ReviewKeyAction::Exit;
        }
        return ReviewKeyAction::Ignored;
    }
    if st.awaiting_feedback {
        if st.followup_pending {
            if key.code == KeyCode::Esc {
                return ReviewKeyAction::CancelFollowup;
            }
            return ReviewKeyAction::Ignored;
        }
        return match key.code {
            KeyCode::Esc => ReviewKeyAction::Exit,
            KeyCode::Enter => {
                let t = trim_str(line.input.as_str());
                if chars_of(t.as_str()).len() == 0 {
                    ReviewKeyAction::Advance
                } else {
                    ReviewKeyAction::SubmitFollowup
                }
            },
            KeyCode::Char(_) => {
                if key.ctrl {
                    ReviewKeyAction::Ignored
                } else {
                    edit_line(line, key.code);
                    ReviewKeyAction::Edited
                }
            },
            KeyCode::Backspace | KeyCode::Delete | KeyCode::Left | KeyCode::Right | KeyCode::Home
            | KeyCode::End => {
                edit_line(line, key.code);
                ReviewKeyAction::Edited
            },
            _ => ReviewKeyAction::Ignored,
        };
    }
    let cur = match st.selected_option {
        Some(k) => k,
        None => 0,
    };
    match key.code {
        KeyCode::Esc => ReviewKeyAction::Exit,
        KeyCode::Up => {
            if st.is_choice && st.n_options > 0 {
                ReviewKeyAction::SelectOption(cur.saturating_sub(1))
            } else {
                ReviewKeyAction::Ignored
            }
        },
        KeyCode::Down => {
            if st.is_choice && st.n_options > 0 {
                let last = st.n_options - 1;
                ReviewKeyAction::SelectOption(
                    if cur < last {
                        cur + 1
                    } else {
                        last
                    },
                )
            } else {
                ReviewKeyAction::Ignored
            }
        },
        KeyCode::Enter => {
            if st.is_choice {
                ReviewKeyAction::SubmitChoice(cur)
            } else {
                let answer = trim_str(line.input.as_str());
                if chars_of(answer.as_str()).len() == 0 {
                    ReviewKeyAction::Ignored
                } else {
                    line.input = String::new();
                    line.cursor_pos = 0;
                    ReviewKeyAction::SubmitAnswer(answer)
                }
            }
        },
        KeyCode::Char(c) => {
            if key.ctrl {
                ReviewKeyAction::Ignored
            } else if st.is_choice {
                match letter_index(c) {
                    Some(i) => if i < st.n_options {
                        ReviewKeyAction::SubmitChoice(i)
                    } else {
                        ReviewKeyAction::Ignored
                    },
                    None => ReviewKeyAction::Ignored,
                }
            } else {
                edit_line(line, key.code);
                ReviewKeyAction::Edited
            }
        },
        KeyCode::Backspace | KeyCode::Delete | KeyCode::Left | KeyCode::Right | KeyCode::Home
        | KeyCode::End => {
            if st.is_choice {
                ReviewKeyAction::Ignored
            } else {
                edit_line(line, key.code);
                ReviewKeyAction::Edited
            }
        },
        _ => ReviewKeyAction::Ignored,
    }
}

/// While an answer is being graded no key hands in another answer or moves
/// to another question (two gradings at once would record against the wrong
/// question): only scrolling and leaving remain.
pub proof fn law_no_submission_while_grading(review: Option<ReviewKeyState>, input: Seq<char>, key: Key)
    ensures
        ({
            let step = review_step(review, true, input, key);
            step is Ignored || step is Scrolled || step is ExitDiscardingGrade
        }),
{
}

/// The judgement of an answer to a choice question.
#[derive(Debug, Clone)]
pub enum ChoiceVerdict {
    /// The question has no key: it is skipped as wrong.
    MissingAnswer,
    /// The key is no option index: it is skipped as wrong.
    InvalidAnswer(i64),
    /// Judged, with the feedback shown.
    Judged { correct: bool, feedback: String },
}

/// The feedback on a choice: right (naming the choice) or wrong (naming the
/// choice and the key).
pub open spec fn choice_feedback(choice: int, key: int) -> Seq<char> {
    if choice == key {
        "✓ 正确（选 "@ + seq![letter_of(choice)] + "）"@
    } else {
        "✗ 错误（选 "@ + seq![letter_of(choice)] + "，正确答案: "@ + seq![letter_of(key)] + "）"@
    }
}

/// Judges option `choice` of a question with `n_options` options and key
/// `answer`: nothing for a choice out of range; a missing or out-of-range
/// key skips the question; otherwise right when the choice is the key.
pub fn judge_choice(choice: usize, n_options: usize, answer: Option<i64>) -> (r: Option<ChoiceVerdict>)
    requires
        n_options <= 191,
    ensures
        choice >= n_options ==> r is None,
        choice < n_options ==> match answer {
            None => r matches Some(ChoiceVerdict::MissingAnswer),
            Some(k) => if k < 0 || k >= n_options {
                r matches Some(ChoiceVerdict::InvalidAnswer(x)) && x == k
            } else {
                r matches Some(ChoiceVerdict::Judged { correct, feedback }) && correct == (choice == k)
                    && feedback@ == choice_feedback(choice as int, k as int)
            },
        },
{
    if choice >= n_options {
        return None;
    }
    let key = match answer {
        Some(k) => k,
        None => {
            return Some(ChoiceVerdict::MissingAnswer);
        },
    };
    if key < 0 || key >= n_options as i64 {
        return Some(ChoiceVerdict::InvalidAnswer(key));
    }
    let k = key as usize;
    let user = option_letter(choice);
    let mut feedback = String::new();
    if choice == k {
        feedback.push_str("✓ 正确（选 ");
        feedback.push(user);
        feedback.push_str("）");
    } else {
        feedback.push_str("✗ 错误（选 ");
        feedback.push(user);
        feedback.push_str("，正确答案: ");
        feedback.push(option_letter(k));
        feedback.push_str("）");
    }
    Some(ChoiceVerdict::Judged { correct: choice == k, feedback })
}

/// The message shown for a key that is no option index.
pub fn invalid_answer_message(k: i64) -> (r: String)
    ensures
        r@ == "该题答案下标非法 ("@ + signed_decimal(k as int) + ")，跳过"@,
{
    let mut m = "该题答案下标非法 (".to_string();
    m.push_str(signed_decimal_string(k).as_str());
    m.push_str(")，跳过");
    m
}

} // verus!
