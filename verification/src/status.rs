//! The status shown in the header: review progress, import, thinking, ready.
use vstd::prelude::*;
use crate::text::{decimal, decimal_string};

verus! {

/// Colour class of the status.
#[derive(Debug, Clone, Copy, PartialEq, Eq, Structural)]
pub enum StatusKind {
    Processing,
    Success,
}

/// What the status reads of a running review.
#[derive(Debug, Clone, Copy, PartialEq, Eq, Structural)]
pub struct ReviewProgress {
    /// Index of the current question.
    pub current: usize,
    /// Questions planned.
    pub planned: usize,
    /// The current question has been generated.
    pub has_question: bool,
}

/// The question number shown: one more than the index, at most the plan.
pub open spec fn shown_number(p: ReviewProgress) -> int {
    if p.current + 1 < p.planned {
        p.current + 1
    } else {
        p.planned as int
    }
}

pub open spec fn status_spec(review: Option<ReviewProgress>, grading: bool, importing: bool, inflight: bool) -> (Seq<char>, StatusKind) {
    match review {
        Some(p) => (
            "◌ Review "@ + decimal(shown_number(p) as nat) + "/"@ + decimal(p.planned as nat) + (if grading {
                " · Grading…"@
            } else {
                Seq::empty()
            }) + (if !grading && !p.has_question {
                " · Generating…"@
            } else {
                Seq::empty()
            }),
            StatusKind::Processing,
        ),
        None => if importing {
            ("◌ 导入中…"@, StatusKind::Processing)
        } else if inflight {
            ("◌ Thinking…"@, StatusKind::Processing)
        } else {
            ("● Ready"@, StatusKind::Success)
        },
    }
}

/// The header status: a running review first (its progress, and whether an
/// answer is graded or the question is still being generated), then an
/// import, then a running request, else ready.
pub fn status_label(review: Option<ReviewProgress>, grading: bool, importing: bool, inflight: bool) -> (r: (String, StatusKind))
    ensures
        (r.0@, r.1) == status_spec(review, grading, importing, inflight),
{
    match review {
        Some(p) => {
            let cur = if p.current < p.planned {
                p.current + 1
            } else {
                p.planned
            };
            let mut s = "◌ Review ".to_string();
            s.push_str(decimal_string(cur).as_str());
            s.push_str("/");
            s.push_str(decimal_string(p.planned).as_str());
            if grading {
                s.push_str(" · Grading…");
            }
            if !grading && !p.has_question {
                s.push_str(" · Generating…");
            }
            proof {
                assert(cur == shown_number(p));
            }
            (s, StatusKind::Processing)
        },
        None => if importing {
            ("◌ 导入中…".to_string(), StatusKind::Processing)
        } else if inflight {
            ("◌ Thinking…".to_string(), StatusKind::Processing)
        } else {
            ("● Ready".to_string(), StatusKind::Success)
        },
    }
}

} // verus!
