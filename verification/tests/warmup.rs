use studypilot::keys::{Key, KeyCode};
use studypilot::warmup::{warmup_summary, WarmupDeck, WarmupOutcome, WarmupRating};

#[test]
fn loaded_deck_starts_at_the_first_card_unrated() {
    let d = WarmupDeck::load(3);
    assert_eq!((d.n_cards, d.current, d.revealed), (3, 0, false));
    assert_eq!(d.ratings, vec![None, None, None]);
}

#[test]
fn flip_rate_and_advance() {
    let mut d = WarmupDeck::load(2);
    assert_eq!(d.handle_key(Key::press(KeyCode::Char(' ')), false), WarmupOutcome::Handled);
    assert!(d.revealed);
    assert_eq!(d.handle_key(Key::press(KeyCode::Char('2')), false), WarmupOutcome::Handled);
    assert_eq!(d.ratings[0], Some(WarmupRating::Shaky));
    assert_eq!(d.handle_key(Key::press(KeyCode::Enter), false), WarmupOutcome::Handled);
    assert_eq!((d.current, d.revealed), (1, false));
    assert_eq!(d.handle_key(Key::press(KeyCode::Char('1')), false), WarmupOutcome::Handled);
    assert_eq!(d.ratings[1], Some(WarmupRating::GotIt));
    assert_eq!(d.handle_key(Key::press(KeyCode::Char('3')), false), WarmupOutcome::Handled);
    assert_eq!(d.ratings[1], Some(WarmupRating::DontKnow));
    // Past the last card: finishes only when every card is rated.
    assert_eq!(d.handle_key(Key::press(KeyCode::Right), false), WarmupOutcome::Pass);
    assert_eq!(d.handle_key(Key::press(KeyCode::Right), true), WarmupOutcome::Finish);
    assert_eq!(d.current, 1);
}

#[test]
fn other_keys_and_exit() {
    let mut d = WarmupDeck::load(1);
    assert_eq!(d.handle_key(Key::press(KeyCode::Char('4')), false), WarmupOutcome::Pass);
    assert_eq!(d.handle_key(Key::press(KeyCode::Up), false), WarmupOutcome::Pass);
    assert_eq!(d.handle_key(Key { code: KeyCode::Esc, ctrl: false, press: false }, false), WarmupOutcome::Pass);
    assert_eq!(d.handle_key(Key::press(KeyCode::Esc), false), WarmupOutcome::Exit);
    let mut empty = WarmupDeck::load(0);
    assert_eq!(empty.handle_key(Key::press(KeyCode::Char(' ')), false), WarmupOutcome::Handled);
    assert!(!empty.revealed);
    assert_eq!(empty.handle_key(Key::press(KeyCode::Char('1')), false), WarmupOutcome::Handled);
    assert!(empty.ratings.is_empty());
}

#[test]
fn summary_lists_focus_concepts_or_all_passed() {
    let (note, scope) = warmup_summary(&[], "进程调度");
    assert_eq!(note, "Warm-up complete\n\nFocus: 全部 ✓ 通过");
    assert_eq!(scope, "进程调度");
    let focus = vec!["页表".to_string(), "TLB".to_string()];
    let (note, scope) = warmup_summary(&focus, "内存");
    assert_eq!(note, "Warm-up complete\n\nFocus:\n△ 页表\n△ TLB");
    assert_eq!(scope, "页表、TLB");
}
