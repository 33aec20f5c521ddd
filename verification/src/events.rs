//! Entries of the chat stream, and the agent's activity lines in it.
use vstd::prelude::*;
use crate::text::{chars_of, decimal, decimal_string, starts_with, starts_with_chars, views};

verus! {

/// One item of the chat stream.
#[derive(Debug, Clone)]
pub enum Entry {
    /// Grey system information (help, interruption notices, ...).
    Info(String),
    /// A user message.
    User(String),
    /// An assistant reply; `reasoning_chars` is the length of the thinking
    /// text, which is not part of the reply.
    Assistant { content: String, reasoning_chars: Option<usize> },
    /// A source footnote line ("[n] title · section").
    Citation(String),
    /// A tool activity line: in progress (`None`), succeeded, failed.
    Tool { text: String, ok: Option<bool> },
    /// A Markdown block (cards, outlines).
    Markdown(String),
    /// Review summary, grouped: mastered, to consolidate, next step.
    Advice { mastered: Vec<String>, consolidate: Vec<String>, next: Option<String> },
    Error(String),
}

pub enum EntryView {
    Info(Seq<char>),
    User(Seq<char>),
    Assistant(Seq<char>, Option<usize>),
    Citation(Seq<char>),
    Tool(Seq<char>, Option<bool>),
    Markdown(Seq<char>),
    Advice(Seq<Seq<char>>, Seq<Seq<char>>, Option<Seq<char>>),
    Error(Seq<char>),
}

impl View for Entry {
    type V = EntryView;

    open spec fn view(&self) -> EntryView {
        match self {
            Entry::Info(s) => EntryView::Info(s@),
            Entry::User(s) => EntryView::User(s@),
            Entry::Assistant { content, reasoning_chars } => EntryView::Assistant(content@, *reasoning_chars),
            Entry::Citation(s) => EntryView::Citation(s@),
            Entry::Tool { text, ok } => EntryView::Tool(text@, *ok),
            Entry::Markdown(s) => EntryView::Markdown(s@),
            Entry::Advice { mastered, consolidate, next } => EntryView::Advice(
                views(mastered@),
                views(consolidate@),
                match next {
                    Some(n) => Some(n@),
                    None => None,
                },
            ),
            Entry::Error(s) => EntryView::Error(s@),
        }
    }
}

pub open spec fn entries_view(v: Seq<Entry>) -> Seq<EntryView> {
    v.map_values(|e: Entry| e@)
}

/// What the agent loop reports while it works.
#[derive(Debug, Clone)]
pub enum Activity {
    /// A new round of thinking begins.
    RoundStart { round: usize },
    /// A tool starts.
    ToolStart { tool: String, detail: String },
    /// A tool finished, successfully or not.
    ToolDone { tool: String, ok: bool, detail: String },
}

/// Whether the last entry is a running line of `tool`.
pub open spec fn last_running(entries: Seq<EntryView>, tool: Seq<char>) -> bool {
    entries.len() > 0 && match entries.last() {
        EntryView::Tool(text, ok) => ok is None && starts_with(text, tool),
        _ => false,
    }
}

/// Shows an activity report in the chat stream: a new round (after the
/// first) as an information line; a tool start as a running line; a tool's
/// end replaces its running line in place (tools run one at a time, so
/// that is the last line) or, without one, is added.  A new line scrolls
/// the chat back to the bottom.
pub fn apply_activity(entries: &mut Vec<Entry>, scroll_up: &mut u16, ev: Activity)
    ensures
        match ev {
            Activity::RoundStart { round } => if round > 1 {
                &&& entries_view(final(entries)@) == entries_view(old(entries)@).push(
                    EntryView::Info("◌ 第 "@ + decimal(round as nat) + " 轮思考…"@),
                )
                &&& *final(scroll_up) == 0
            } else {
                &&& entries_view(final(entries)@) == entries_view(old(entries)@)
                &&& *final(scroll_up) == *old(scroll_up)
            },
            Activity::ToolStart { tool, detail } => {
                &&& entries_view(final(entries)@) == entries_view(old(entries)@).push(
                    EntryView::Tool(tool@ + " "@ + detail@, None),
                )
                &&& *final(scroll_up) == 0
            },
            Activity::ToolDone { tool, ok, detail } => if last_running(entries_view(old(entries)@), tool@) {
                &&& entries_view(final(entries)@) == entries_view(old(entries)@).update(
                    old(entries)@.len() - 1,
                    EntryView::Tool(tool@ + detail@, Some(ok)),
                )
                &&& *final(scroll_up) == *old(scroll_up)
            } else {
                &&& entries_view(final(entries)@) == entries_view(old(entries)@).push(
                    EntryView::Tool(tool@ + detail@, Some(ok)),
                )
                &&& *final(scroll_up) == 0
            },
        },
{
    let ghost e0 = entries_view(entries@);
    match ev {
        Activity::RoundStart { round } => {
            if round > 1 {
                let mut m = "◌ 第 ".to_string();
                m.push_str(decimal_string(round).as_str());
                m.push_str(" 轮思考…");
                let e = Entry::Info(m);
                entries.push(e);
                *scroll_up = 0;
                proof {
                    assert(entries_view(entries@) =~= e0.push(e@));
                }
            }
        },
        Activity::ToolStart { tool, detail } => {
            let mut t = tool;
            t.push_str(" ");
            t.push_str(detail.as_str());
            let e = Entry::Tool { text: t, ok: None };
            entries.push(e);
            *scroll_up = 0;
            proof {
                assert(entries_view(entries@) =~= e0.push(e@));
            }
        },
        Activity::ToolDone { tool, ok, detail } => {
            let mut t = tool.clone();
            t.push_str(detail.as_str());
            let n = entries.len();
            let running = if n > 0 {
                match &entries[n - 1] {
                    Entry::Tool { text, ok: None } => starts_with_chars(
                        chars_of(text.as_str()).as_slice(),
                        chars_of(tool.as_str()).as_slice(),
                    ),
                    _ => false,
                }
            } else {
                false
            };
            proof {
                if n > 0 {
                    assert(e0.last() == entries@[n - 1]@);
                }
            }
            let e = Entry::Tool { text: t, ok: Some(ok) };
            if running {
                entries.set(n - 1, e);
                proof {
                    assert(entries_view(entries@) =~= e0.update(n - 1, e@));
                }
            } else {
                entries.push(e);
                *scroll_up = 0;
                proof {
                    assert(entries_view(entries@) =~= e0.push(e@));
                }
            }
        },
    }
}

} // verus!
