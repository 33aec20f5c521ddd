use studypilot::input_edit::{byte_offset, delete_at, delete_before, insert_char};

fn check_byte_offset() {
    let s = "ab中文cd";
    assert_eq!(byte_offset(s, 0), 0);
    assert_eq!(byte_offset(s, 2), 2);
    assert_eq!(byte_offset(s, 3), 5);
    assert_eq!(byte_offset(s, 6), 10);
    assert_eq!(byte_offset(s, 99), 10);
    assert_eq!(byte_offset("", 0), 0);
}

fn check_insert() {
    let mut s = String::from("ac");
    assert_eq!(insert_char(&mut s, 1, 'b'), 2);
    assert_eq!(s, "abc");
    let mut s = String::from("内存");
    assert_eq!(insert_char(&mut s, 1, '安'), 2);
    assert_eq!(s, "内安存");
    let mut s = String::from("bc");
    assert_eq!(insert_char(&mut s, 0, 'a'), 1);
    assert_eq!(s, "abc");
    assert_eq!(insert_char(&mut s, 99, 'd'), 4);
    assert_eq!(s, "abcd");
}

fn check_delete_before() {
    let mut s = String::from("abc");
    assert_eq!(delete_before(&mut s, 0), 0);
    assert_eq!(s, "abc");
    assert_eq!(delete_before(&mut s, 2), 1);
    assert_eq!(s, "ac");
    let mut s = String::from("内存");
    assert_eq!(delete_before(&mut s, 2), 1);
    assert_eq!(s, "内");
    let mut s = String::new();
    assert_eq!(delete_before(&mut s, 0), 0);
    assert_eq!(delete_before(&mut s, 5), 0);
}

fn check_delete_at() {
    let mut s = String::from("abc");
    delete_at(&mut s, 1);
    assert_eq!(s, "ac");
    let mut s = String::from("内存好");
    delete_at(&mut s, 1);
    assert_eq!(s, "内好");
    delete_at(&mut s, 2);
    assert_eq!(s, "内好");
    delete_at(&mut s, 99);
    assert_eq!(s, "内好");
}

#[test]
fn input_edit_byte_offset_ascii_and_cjk() {
    check_byte_offset();
}

#[test]
fn input_edit_insert_char_at_head_middle_tail() {
    check_insert();
}

#[test]
fn input_edit_delete_before_various_positions() {
    check_delete_before();
}

#[test]
fn input_edit_delete_at_keeps_cursor() {
    check_delete_at();
}

#[test]
fn app_byte_offset_ascii_and_cjk() {
    check_byte_offset();
}

#[test]
fn app_insert_char_at_head_middle_tail() {
    check_insert();
}

#[test]
fn app_delete_before_various_positions() {
    check_delete_before();
}

#[test]
fn app_delete_at_keeps_cursor() {
    check_delete_at();
}

/// Backspace right after an insertion restores the line and the cursor.
#[test]
fn backspace_after_insert_restores_line() {
    for (line, pos) in [("内存好", 1usize), ("abc", 0), ("", 0), ("x", 7)] {
        let mut s = String::from(line);
        let p = insert_char(&mut s, pos, '字');
        let back = delete_before(&mut s, p);
        assert_eq!(s, line);
        assert_eq!(back, pos.min(line.chars().count()));
    }
}

/// Delete at `p` and Backspace at `p + 1` remove the same character.
#[test]
fn delete_at_matches_backspace_after() {
    let mut a = String::from("内存abc");
    let mut b = a.clone();
    delete_at(&mut a, 2);
    delete_before(&mut b, 3);
    assert_eq!(a, b);
    assert_eq!(a, "内存bc");
}
