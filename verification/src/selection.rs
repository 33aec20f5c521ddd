//! Mouse text selection in the chat area: a screen row maps to the rendered
//! line drawn on it, dragging at the edges scrolls, and releasing the button
//! takes the selected lines as text.
use vstd::prelude::*;
use crate::navigation::Workspace;
use crate::palette::{visible_spec, ListPicker};
use crate::text::{chars_of_all, join, join_chars, string_of, trim, trim_chars, views, vviews};

verus! {

/// The chat area on screen.  It has no border: the first visible line is
/// drawn on row `y`.
#[derive(Debug, Clone, Copy, PartialEq, Eq, Structural)]
pub struct ChatArea {
    pub x: u16,
    pub y: u16,
    pub width: u16,
    pub height: u16,
}

impl ChatArea {
    /// Whether the cell at column `col`, row `row` lies inside the area
    /// (right and bottom edges saturate at `u16::MAX`).
    pub open spec fn holds(self, col: u16, row: u16) -> bool {
        &&& self.x <= col
        &&& col < self.x.saturating_add(self.width)
        &&& self.y <= row
        &&& row < self.y.saturating_add(self.height)
    }

    pub fn contains(&self, col: u16, row: u16) -> (r: bool)
        ensures
            r == self.holds(col, row),
    {
        self.x <= col && col < self.x.saturating_add(self.width) && self.y <= row && row
            < self.y.saturating_add(self.height)
    }
}

/// Scroll position and selection of the chat view.
#[derive(Debug, Clone, Copy)]
pub struct TextSelection {
    /// Lines scrolled up from the bottom.
    pub scroll_up: u16,
    /// The line where the button went down; it stays put while dragging.
    pub anchor: Option<usize>,
    /// Selected lines, first and last (inclusive).
    pub range: Option<(usize, usize)>,
}

/// Largest scroll offset: lines that do not fit the area.
pub open spec fn max_offset(area: ChatArea, n_lines: usize) -> usize {
    n_lines.saturating_sub(area.height as usize)
}

/// Whether a press on `row` scrolls up by three lines.
pub open spec fn scrolls_up(area: ChatArea, n_lines: usize, row: u16) -> bool {
    row <= area.y && max_offset(area, n_lines) > 0
}

/// The scroll position after a press or drag on `row`: three lines up at the
/// top edge (when there is anything to scroll), three lines down at the
/// bottom edge.
pub open spec fn scroll_after(sel: TextSelection, area: ChatArea, n_lines: usize, row: u16) -> u16 {
    if scrolls_up(area, n_lines, row) {
        let up = (sel.scroll_up + 3) as u16;
        let cap = max_offset(area, n_lines) as u16;
        if up < cap {
            up
        } else {
            cap
        }
    } else if row >= area.y.saturating_add(area.height).saturating_sub(1) {
        sel.scroll_up.saturating_sub(3)
    } else {
        sel.scroll_up
    }
}

/// The rendered line drawn on screen row `row` when the view is scrolled
/// up by `scroll`: the view shows lines `max_offset - scroll` on, and the
/// index stays on the last line.
pub open spec fn line_at(area: ChatArea, n_lines: usize, scroll: u16, row: u16) -> int {
    let top = max_offset(area, n_lines).saturating_sub(scroll as usize);
    let idx = top + (row - area.y);
    let last = n_lines.saturating_sub(1);
    if idx < last {
        idx
    } else {
        last as int
    }
}

/// Selection after the mouse went down (`is_down`) or dragged on a cell.
pub open spec fn selection_after(
    sel: TextSelection,
    area: ChatArea,
    n_lines: usize,
    row: u16,
    col: u16,
    is_down: bool,
) -> TextSelection {
    if !area.holds(col, row) {
        sel
    } else {
        let scroll = scroll_after(sel, area, n_lines, row);
        let idx = line_at(area, n_lines, scroll, row) as usize;
        match (is_down, sel.anchor) {
            (false, Some(a)) => TextSelection {
                scroll_up: scroll,
                anchor: Some(a),
                range: Some(
                    (
                        if a < idx {
                            a
                        } else {
                            idx
                        },
                        if a < idx {
                            idx
                        } else {
                            a
                        },
                    ),
                ),
            },
            _ => TextSelection { scroll_up: scroll, anchor: Some(idx), range: Some((idx, idx)) },
        }
    }
}

/// Updates the selection for a mouse press (`is_down`) or drag at
/// (`row`, `col`); positions outside the chat area are ignored.  A press
/// anchors the selection on the line under the mouse; a drag extends it
/// from the anchor in either direction (a drag with no anchor starts one).
pub fn update_text_selection(
    sel: &mut TextSelection,
    area: ChatArea,
    n_lines: usize,
    row: u16,
    col: u16,
    is_down: bool,
)
    requires
        n_lines <= isize::MAX,
        area.holds(col, row) && scrolls_up(area, n_lines, row) ==> old(sel).scroll_up + 3
            <= u16::MAX,
    ensures
        *final(sel) == selection_after(*old(sel), area, n_lines, row, col, is_down),
{
    if !area.contains(col, row) {
        return;
    }
    let max_off = n_lines.saturating_sub(area.height as usize);
    let near_top = row <= area.y;
    let near_bottom = row >= area.y.saturating_add(area.height).saturating_sub(1);
    if near_top && max_off > 0 {
        let up = sel.scroll_up + 3;
        let cap = max_off as u16;
        sel.scroll_up = if up < cap {
            up
        } else {
            cap
        };
    } else if near_bottom {
        sel.scroll_up = sel.scroll_up.saturating_sub(3);
    }
    let top = max_off.saturating_sub(sel.scroll_up as usize);
    let visible_row = (row - area.y) as usize;
    let idx0 = top + visible_row;
    let last = n_lines.saturating_sub(1);
    let idx = if idx0 < last {
        idx0
    } else {
        last
    };
    if is_down {
        sel.anchor = Some(idx);
        sel.range = Some((idx, idx));
        return;
    }
    match sel.anchor {
        Some(a) => {
            let lo = if a < idx {
                a
            } else {
                idx
            };
            let hi = if a < idx {
                idx
            } else {
                a
            };
            sel.range = Some((lo, hi));
        },
        None => {
            sel.anchor = Some(idx);
            sel.range = Some((idx, idx));
        },
    }
}

/// A press or drag inside the chat area always leaves a selection that runs
/// from the anchor to the line under the mouse, whichever comes first, and
/// the anchor of a drag is the one the press set.
pub proof fn law_selection_spans_anchor(
    sel: TextSelection,
    area: ChatArea,
    n_lines: usize,
    row: u16,
    col: u16,
    is_down: bool,
)
    requires
        area.holds(col, row),
    ensures
        ({
            let after = selection_after(sel, area, n_lines, row, col, is_down);
            let idx = line_at(area, n_lines, after.scroll_up, row) as usize;
            &&& after.anchor matches Some(a)
            &&& after.range matches Some((lo, hi))
            &&& lo <= a <= hi
            &&& lo <= idx <= hi
            &&& (lo == idx || hi == idx)
            &&& (!is_down && sel.anchor is Some ==> after.anchor == sel.anchor)
        }),
{
}

/// `i` kept within `0..=last`.
pub open spec fn clamp_to(i: usize, last: int) -> int {
    if i < last {
        i as int
    } else {
        last
    }
}

/// The text of the selected lines `start..=end` (each kept on the last
/// line), joined by line breaks.
pub open spec fn selected_lines(lines: Seq<Seq<char>>, start: usize, end: usize) -> Seq<Seq<char>> {
    let last = lines.len() - 1;
    lines.subrange(clamp_to(start, last), clamp_to(end, last) + 1)
}

/// What releasing the button copies: the selected text and its line count,
/// or nothing when there is no selection or the text is blank.
pub open spec fn copied_text(lines: Seq<Seq<char>>, range: Option<(usize, usize)>) -> Option<(Seq<char>, int)> {
    match range {
        None => None,
        Some((s, e)) => {
            let text = join(selected_lines(lines, s, e), "\n"@);
            if trim(text).len() == 0 {
                None
            } else {
                let last = lines.len() - 1;
                Some((text, clamp_to(e, last) - clamp_to(s, last) + 1))
            }
        },
    }
}

/// The mouse button went up: the selection ends, and the selected lines are
/// handed back as text with their count (for the clipboard), unless the
/// selection is blank.
pub fn take_selected_text(sel: &mut TextSelection, lines: &[String]) -> (r: Option<(String, usize)>)
    requires
        old(sel).range matches Some((s, e)) ==> lines.len() > 0 && clamp_to(s, lines.len() - 1)
            <= clamp_to(e, lines.len() - 1) + 1,
    ensures
        final(sel).anchor is None,
        final(sel).range is None,
        final(sel).scroll_up == old(sel).scroll_up,
        match (r, copied_text(views(lines@), old(sel).range)) {
            (Some((t, n)), Some((text, count))) => t@ == text && n == count,
            (None, None) => true,
            _ => false,
        },
{
    sel.anchor = None;
    let range = sel.range;
    sel.range = None;
    let (s, e) = match range {
        Some(p) => p,
        None => {
            return None;
        },
    };
    let last = lines.len() - 1;
    let start = if s < last {
        s
    } else {
        last
    };
    let end = if e < last {
        e
    } else {
        last
    };
    let picked = chars_of_all(&lines[start..end + 1]);
    proof {
        assert(vviews(picked@) =~= selected_lines(views(lines@), s, e));
        reveal_strlit("\n");
    }
    let sep: Vec<char> = vec!['\n'];
    proof {
        assert(sep@ =~= "\n"@);
    }
    let text = join_chars(picked.as_slice(), sep.as_slice());
    let trimmed = trim_chars(&text);
    if trimmed.len() == 0 {
        return None;
    }
    Some((string_of(&text), end - start + 1))
}

// ---------------------------------------------------------------------------
// Mouse events
// ---------------------------------------------------------------------------
/// The kinds of mouse event the chat view reads.
#[derive(Debug, Clone, Copy, PartialEq, Eq, Structural)]
pub enum MouseKind {
    ScrollUp,
    ScrollDown,
    /// Left button pressed.
    LeftDown,
    /// Moved with the left button held.
    LeftDrag,
    /// Left button released.
    LeftUp,
    Other,
}

/// What the owner does after a mouse event.
#[derive(Debug, Clone, Copy, PartialEq, Eq, Structural)]
pub enum MouseOutcome {
    Nothing,
    /// The button was released over a selection: copy it
    /// (`take_selected_text`) to the clipboard.
    CopySelection,
}

/// The picker row after a wheel step over `vis` visible rows.
pub open spec fn wheel_row(selected: usize, vis: int, down: bool) -> usize {
    if down {
        if vis > 0 {
            if selected + 1 < vis {
                (selected + 1) as usize
            } else {
                (vis - 1) as usize
            }
        } else {
            selected
        }
    } else {
        selected.saturating_sub(1)
    }
}

/// A mouse event.  An open list picker takes the wheel (in any workspace)
/// and nothing else; otherwise only the session workspace, which shows the
/// chat, reacts: the wheel scrolls by three lines, the left button selects
/// lines, and its release asks for the copy.
pub fn mouse_event(
    picker: &mut Option<ListPicker>,
    input: &str,
    ws: Workspace,
    sel: &mut TextSelection,
    area: ChatArea,
    n_lines: usize,
    kind: MouseKind,
    row: u16,
    col: u16,
) -> (r: MouseOutcome)
    requires
        n_lines <= isize::MAX,
        kind == MouseKind::LeftDown || kind == MouseKind::LeftDrag ==> (area.holds(col, row)
            && scrolls_up(area, n_lines, row) ==> old(sel).scroll_up + 3 <= u16::MAX),
    ensures
        match *old(picker) {
            Some(p) => {
                let vis = visible_spec(p.items@, input@).len() as int;
                &&& r == MouseOutcome::Nothing
                &&& *final(sel) == *old(sel)
                &&& *final(picker) == Some(ListPicker {
                    selected: if kind == MouseKind::ScrollDown {
                        wheel_row(p.selected, vis, true)
                    } else if kind == MouseKind::ScrollUp {
                        wheel_row(p.selected, vis, false)
                    } else {
                        p.selected
                    },
                    ..p
                })
            },
            None => {
                &&& *final(picker) is None
                &&& r == (if ws == Workspace::Session && kind == MouseKind::LeftUp {
                    MouseOutcome::CopySelection
                } else {
                    MouseOutcome::Nothing
                })
                &&& *final(sel) == (if ws != Workspace::Session {
                    *old(sel)
                } else {
                    match kind {
                        MouseKind::ScrollDown => TextSelection {
                            scroll_up: old(sel).scroll_up.saturating_sub(3),
                            ..*old(sel)
                        },
                        MouseKind::ScrollUp => TextSelection {
                            scroll_up: old(sel).scroll_up.saturating_add(3),
                            ..*old(sel)
                        },
                        MouseKind::LeftDown => selection_after(*old(sel), area, n_lines, row, col, true),
                        MouseKind::LeftDrag => selection_after(*old(sel), area, n_lines, row, col, false),
                        _ => *old(sel),
                    }
                })
            },
        },
{
    match picker {
        Some(p) => {
            let vis = p.visible(input).len();
            if kind == MouseKind::ScrollDown {
                if vis > 0 {
                    p.selected = if p.selected < vis - 1 {
                        p.selected + 1
                    } else {
                        vis - 1
                    };
                }
            } else if kind == MouseKind::ScrollUp {
                p.selected = p.selected.saturating_sub(1);
            }
            return MouseOutcome::Nothing;
        },
        None => {},
    }
    if ws != Workspace::Session {
        return MouseOutcome::Nothing;
    }
    match kind {
        MouseKind::ScrollDown => {
            sel.scroll_up = sel.scroll_up.saturating_sub(3);
            MouseOutcome::Nothing
        },
        MouseKind::ScrollUp => {
            sel.scroll_up = sel.scroll_up.saturating_add(3);
            MouseOutcome::Nothing
        },
        MouseKind::LeftDown => {
            update_text_selection(sel, area, n_lines, row, col, true);
            MouseOutcome::Nothing
        },
        MouseKind::LeftDrag => {
            update_text_selection(sel, area, n_lines, row, col, false);
            MouseOutcome::Nothing
        },
        MouseKind::LeftUp => MouseOutcome::CopySelection,
        MouseKind::Other => MouseOutcome::Nothing,
    }
}

} // verus!
