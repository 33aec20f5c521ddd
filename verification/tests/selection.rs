use studypilot::navigation::Workspace;
use studypilot::palette::{ListChoice, ListPicker};
use studypilot::selection::{
    mouse_event, take_selected_text, update_text_selection, ChatArea, MouseKind, MouseOutcome,
    TextSelection,
};

fn fresh() -> TextSelection {
    TextSelection { scroll_up: 0, anchor: None, range: None }
}

fn area() -> ChatArea {
    ChatArea { x: 22, y: 3, width: 60, height: 20 }
}

#[test]
fn selection_maps_to_rendered_row() {
    let mut sel = fresh();
    // 100 lines, 20 visible, at the bottom: the first screen row shows line 80.
    update_text_selection(&mut sel, area(), 100, 10, 30, true);
    assert_eq!(sel.anchor, Some(87));
    assert_eq!(sel.range, Some((87, 87)));
}

#[test]
fn selection_without_scroll() {
    let mut sel = fresh();
    update_text_selection(&mut sel, area(), 10, 3, 30, true);
    assert_eq!(sel.anchor, Some(0));
    update_text_selection(&mut sel, area(), 10, 9, 30, true);
    assert_eq!(sel.anchor, Some(6));
}

#[test]
fn drag_extends_from_the_anchor_both_ways() {
    let mut sel = fresh();
    update_text_selection(&mut sel, area(), 10, 6, 30, true);
    assert_eq!(sel.range, Some((3, 3)));
    update_text_selection(&mut sel, area(), 10, 8, 30, false);
    assert_eq!(sel.anchor, Some(3));
    assert_eq!(sel.range, Some((3, 5)));
    update_text_selection(&mut sel, area(), 10, 4, 30, false);
    assert_eq!(sel.anchor, Some(3));
    assert_eq!(sel.range, Some((1, 3)));
}

#[test]
fn drag_without_press_starts_a_selection() {
    let mut sel = fresh();
    update_text_selection(&mut sel, area(), 10, 5, 30, false);
    assert_eq!(sel.anchor, Some(2));
    assert_eq!(sel.range, Some((2, 2)));
}

#[test]
fn outside_the_area_is_ignored() {
    let mut sel = fresh();
    update_text_selection(&mut sel, area(), 100, 2, 30, true);
    update_text_selection(&mut sel, area(), 100, 10, 82, true);
    assert_eq!(sel.anchor, None);
    assert_eq!(sel.range, None);
    assert_eq!(sel.scroll_up, 0);
}

#[test]
fn edges_scroll_by_three_lines() {
    let mut sel = fresh();
    // Top edge: scroll up three lines, the view now starts at line 77.
    update_text_selection(&mut sel, area(), 100, 3, 30, true);
    assert_eq!(sel.scroll_up, 3);
    assert_eq!(sel.anchor, Some(77));
    // Bottom edge: back down.
    update_text_selection(&mut sel, area(), 100, 22, 30, false);
    assert_eq!(sel.scroll_up, 0);
    assert_eq!(sel.range, Some((77, 99)));
    // Scrolling up stops at the first line.
    let mut near = TextSelection { scroll_up: 79, anchor: None, range: None };
    update_text_selection(&mut near, area(), 100, 3, 30, true);
    assert_eq!(near.scroll_up, 80);
    assert_eq!(near.anchor, Some(0));
}

#[test]
fn index_stays_on_the_last_line() {
    let mut sel = fresh();
    update_text_selection(&mut sel, area(), 3, 15, 30, true);
    assert_eq!(sel.anchor, Some(2));
}

fn lines(v: &[&str]) -> Vec<String> {
    v.iter().map(|s| s.to_string()).collect()
}

#[test]
fn release_copies_the_selected_lines() {
    let ls = lines(&["a", "bb", "ccc", "d"]);
    let mut sel = TextSelection { scroll_up: 2, anchor: Some(1), range: Some((1, 2)) };
    let got = take_selected_text(&mut sel, &ls);
    assert_eq!(got, Some(("bb\nccc".to_string(), 2)));
    assert_eq!(sel.anchor, None);
    assert_eq!(sel.range, None);
    assert_eq!(sel.scroll_up, 2);
}

#[test]
fn release_clamps_and_skips_blank_text() {
    let ls = lines(&["x", "  ", ""]);
    let mut sel = TextSelection { scroll_up: 0, anchor: None, range: Some((1, 9)) };
    assert_eq!(take_selected_text(&mut sel, &ls), None);
    let mut sel = TextSelection { scroll_up: 0, anchor: None, range: Some((0, 9)) };
    assert_eq!(take_selected_text(&mut sel, &ls), Some(("x\n  \n".to_string(), 3)));
    let mut none = fresh();
    assert_eq!(take_selected_text(&mut none, &ls), None);
}

fn list(selected: usize) -> Option<ListPicker> {
    let choice = |l: &str| ListChoice { label: l.into(), command: "/x".into(), action: None };
    Some(ListPicker { title: "t".into(), items: vec![choice("alpha"), choice("beta"), choice("alps")], selected })
}

#[test]
fn open_picker_takes_the_wheel() {
    let mut sel = fresh();
    let mut p = list(0);
    let out = mouse_event(&mut p, "al", Workspace::Home, &mut sel, area(), 100, MouseKind::ScrollDown, 10, 30);
    assert_eq!(out, MouseOutcome::Nothing);
    assert_eq!(p.as_ref().unwrap().selected, 1);
    mouse_event(&mut p, "al", Workspace::Home, &mut sel, area(), 100, MouseKind::ScrollDown, 10, 30);
    assert_eq!(p.as_ref().unwrap().selected, 1);
    mouse_event(&mut p, "al", Workspace::Session, &mut sel, area(), 100, MouseKind::LeftDown, 10, 30);
    assert_eq!(sel.anchor, None);
    mouse_event(&mut p, "al", Workspace::Session, &mut sel, area(), 100, MouseKind::ScrollUp, 10, 30);
    mouse_event(&mut p, "al", Workspace::Session, &mut sel, area(), 100, MouseKind::ScrollUp, 10, 30);
    assert_eq!(p.as_ref().unwrap().selected, 0);
    assert_eq!(sel.scroll_up, 0);
}

#[test]
fn chat_mouse_only_in_the_session_workspace() {
    let mut sel = fresh();
    let mut none: Option<ListPicker> = None;
    mouse_event(&mut none, "", Workspace::Course, &mut sel, area(), 100, MouseKind::ScrollUp, 10, 30);
    assert_eq!(sel.scroll_up, 0);
    assert_eq!(mouse_event(&mut none, "", Workspace::Home, &mut sel, area(), 100, MouseKind::LeftUp, 10, 30), MouseOutcome::Nothing);
    mouse_event(&mut none, "", Workspace::Session, &mut sel, area(), 100, MouseKind::ScrollUp, 10, 30);
    assert_eq!(sel.scroll_up, 3);
    mouse_event(&mut none, "", Workspace::Session, &mut sel, area(), 100, MouseKind::ScrollDown, 10, 30);
    mouse_event(&mut none, "", Workspace::Session, &mut sel, area(), 100, MouseKind::ScrollDown, 10, 30);
    assert_eq!(sel.scroll_up, 0);
    mouse_event(&mut none, "", Workspace::Session, &mut sel, area(), 100, MouseKind::LeftDown, 10, 30);
    assert_eq!(sel.anchor, Some(87));
    mouse_event(&mut none, "", Workspace::Session, &mut sel, area(), 100, MouseKind::LeftDrag, 12, 30);
    assert_eq!(sel.range, Some((87, 89)));
    let out = mouse_event(&mut none, "", Workspace::Session, &mut sel, area(), 100, MouseKind::LeftUp, 12, 30);
    assert_eq!(out, MouseOutcome::CopySelection);
}
