//! Flashcard warm-up before a review: flip a card, rate it, go on; the
//! concepts not rated "got it" become the focus of the review that follows.
use vstd::prelude::*;
use crate::keys::{Key, KeyCode};
use crate::text::{join, join_chars, chars_of, chars_of_all, string_of, append_chars, views, vviews};

verus! {

/// Self-rating of a card.
#[derive(Debug, Clone, Copy, PartialEq, Eq, Structural)]
pub enum WarmupRating {
    GotIt,
    Shaky,
    DontKnow,
}

/// The deck being gone through: number of cards, the card shown, whether
/// its back is shown, and the rating of each card so far.
#[derive(Debug, Clone)]
pub struct WarmupDeck {
    pub n_cards: usize,
    pub current: usize,
    pub revealed: bool,
    pub ratings: Vec<Option<WarmupRating>>,
}

/// What the warm-up asks of its owner after a key.
#[derive(Debug, Clone, Copy, PartialEq, Eq, Structural)]
pub enum WarmupOutcome {
    /// Not a warm-up key.
    Pass,
    Handled,
    /// Leave the warm-up without a review.
    Exit,
    /// Every card is rated and the last one was passed: start the review.
    Finish,
}

/// The rating a digit key gives.
pub open spec fn digit_rating(c: char) -> Option<WarmupRating> {
    if c == '1' {
        Some(WarmupRating::GotIt)
    } else if c == '2' {
        Some(WarmupRating::Shaky)
    } else if c == '3' {
        Some(WarmupRating::DontKnow)
    } else {
        None
    }
}

impl WarmupDeck {
    /// The deck once `n` cards have arrived: first card, face up front, no
    /// ratings.
    pub fn load(n: usize) -> (r: WarmupDeck)
        ensures
            r.n_cards == n,
            r.current == 0,
            !r.revealed,
            r.ratings@ == Seq::new(n as nat, |i: int| None::<WarmupRating>),
    {
        let mut ratings: Vec<Option<WarmupRating>> = Vec::new();
        let mut i: usize = 0;
        while i < n
            invariant
                i <= n,
                ratings@ == Seq::new(i as nat, |k: int| None::<WarmupRating>),
            decreases n - i,
        {
            ratings.push(None);
            proof {
                assert(ratings@ =~= Seq::new((i + 1) as nat, |k: int| None::<WarmupRating>));
            }
            i = i + 1;
        }
        WarmupDeck { n_cards: n, current: 0, revealed: false, ratings }
    }

    /// A key during the warm-up: Esc leaves; Space flips the card; 1, 2 and
    /// 3 rate it (got it, shaky, don't know); Enter or Right goes to the
    /// next card, and past the last one finishes once every card is rated
    /// (`all_rated`).
    pub fn handle_key(&mut self, key: Key, all_rated: bool) -> (r: WarmupOutcome)
        ensures
            final(self).n_cards == old(self).n_cards,
            !key.press ==> r == WarmupOutcome::Pass && *final(self) == *old(self),
            key.press ==> match key.code {
                KeyCode::Esc => r == WarmupOutcome::Exit && *final(self) == *old(self),
                KeyCode::Char(c) => if c == ' ' {
                    r == WarmupOutcome::Handled && final(self).revealed == (old(self).revealed
                        || old(self).current < old(self).n_cards) && final(self).current
                        == old(self).current && final(self).ratings@ == old(self).ratings@
                } else {
                    match digit_rating(c) {
                        Some(rating) => r == WarmupOutcome::Handled && final(self).current
                            == old(self).current && final(self).revealed == old(self).revealed
                            && final(self).ratings@ == (if old(self).current < old(self).n_cards
                            && old(self).current < old(self).ratings@.len() {
                            old(self).ratings@.update(old(self).current as int, Some(rating))
                        } else {
                            old(self).ratings@
                        }),
                        None => r == WarmupOutcome::Pass && *final(self) == *old(self),
                    }
                },
                KeyCode::Enter | KeyCode::Right => if old(self).current + 1 < old(self).n_cards {
                    r == WarmupOutcome::Handled && final(self).current == old(self).current + 1
                        && !final(self).revealed && final(self).ratings@ == old(self).ratings@
                } else {
                    *final(self) == *old(self) && r == (if all_rated {
                        WarmupOutcome::Finish
                    } else {
                        WarmupOutcome::Pass
                    })
                },
                _ => r == WarmupOutcome::Pass && *final(self) == *old(self),
            },
    {
        if !key.press {
            return WarmupOutcome::Pass;
        }
        match key.code {
            KeyCode::Esc => WarmupOutcome::Exit,
            KeyCode::Char(c) => {
                if c == ' ' {
                    if self.current < self.n_cards {
                        self.revealed = true;
                    }
                    WarmupOutcome::Handled
                } else {
                    let rating = if c == '1' {
                        WarmupRating::GotIt
                    } else if c == '2' {
                        WarmupRating::Shaky
                    } else if c == '3' {
                        WarmupRating::DontKnow
                    } else {
                        return WarmupOutcome::Pass;
                    };
                    let idx = self.current;
                    if idx < self.n_cards && idx < self.ratings.len() {
                        self.ratings.set(idx, Some(rating));
                    }
                    WarmupOutcome::Handled
                }
            },
            KeyCode::Enter | KeyCode::Right => {
                let advance = self.n_cards > 0 && self.current < self.n_cards - 1;
                if advance {
                    self.current = self.current + 1;
                    self.revealed = false;
                    WarmupOutcome::Handled
                } else if all_rated {
                    WarmupOutcome::Finish
                } else {
                    WarmupOutcome::Pass
                }
            },
            _ => WarmupOutcome::Pass,
        }
    }
}

/// The closing note of the warm-up: the focus concepts, or that every card
/// passed.
pub open spec fn focus_lines(focus: Seq<Seq<char>>) -> Seq<char>
    decreases focus.len(),
{
    if focus.len() == 0 {
        Seq::empty()
    } else {
        focus_lines(focus.drop_last()) + "\n△ "@ + focus.last()
    }
}

pub open spec fn warmup_note(focus: Seq<Seq<char>>) -> Seq<char> {
    "Warm-up complete\n\nFocus:"@ + if focus.len() == 0 {
        " 全部 ✓ 通过"@
    } else {
        focus_lines(focus)
    }
}

/// The scope of the review after the warm-up: the focus concepts joined by
/// "、", or the warm-up's own scope when every card was got.
pub open spec fn review_scope(focus: Seq<Seq<char>>, scope_text: Seq<char>) -> Seq<char> {
    if focus.len() == 0 {
        scope_text
    } else {
        join(focus, "、"@)
    }
}

/// The warm-up is over: the note to show and the scope of the review.
pub fn warmup_summary(focus: &[String], scope_text: &str) -> (r: (String, String))
    ensures
        r.0@ == warmup_note(views(focus@)),
        r.1@ == review_scope(views(focus@), scope_text@),
{
    let mut note = "Warm-up complete\n\nFocus:".to_string();
    let ghost head = note@;
    if focus.len() == 0 {
        note.push_str(" 全部 ✓ 通过");
        return (note, scope_text.to_string());
    }
    let mut i: usize = 0;
    while i < focus.len()
        invariant
            i <= focus.len(),
            note@ == head + focus_lines(views(focus@).take(i as int)),
        decreases focus.len() - i,
    {
        let ghost before = note@;
        note.push_str("\n△ ");
        note.push_str(focus[i].as_str());
        proof {
            assert(views(focus@).take(i + 1).drop_last() =~= views(focus@).take(i as int));
            assert(views(focus@).take(i + 1).last() == focus@[i as int]@);
            assert(note@ =~= head + focus_lines(views(focus@).take(i + 1)));
        }
        i = i + 1;
    }
    proof {
        assert(views(focus@).take(focus.len() as int) =~= views(focus@));
    }
    let parts = chars_of_all(focus);
    let sep = chars_of("、");
    let scope = join_chars(parts.as_slice(), sep.as_slice());
    (note, string_of(scope.as_slice()))
}

} // verus!
