use easy_kill_cli::Checkbox;
use easy_kill_cli::KeyEvent;
use easy_kill_cli::Session;

fn menu(labels: &[&str]) -> Checkbox {
    let mut cb = Checkbox::new();
    cb.items(labels);
    cb
}

fn sync_holds(s: &Session) {
    if s.selected.len() >= 2 {
        let all_real = s.selected[1..].iter().all(|&b| b);
        assert_eq!(s.selected[0], all_real);
    }
}

#[test]
fn new_has_only_the_all_entry() {
    let cb = Checkbox::new();
    assert_eq!(cb.items, vec!["ALL".to_string()]);
    assert!(cb.clear);
}

#[test]
fn item_and_items_append_in_order() {
    let mut cb = Checkbox::new();
    cb.item("a");
    cb.items(&["b", "c"]);
    assert_eq!(cb.items, vec!["ALL", "a", "b", "c"]);
}

#[test]
fn clear_sets_the_flag() {
    let mut cb = Checkbox::new();
    cb.clear(false);
    assert!(!cb.clear);
    cb.clear(true);
    assert!(cb.clear);
}

#[test]
fn start_begins_unselected_at_entry_zero() {
    let s = menu(&["a", "b"]).start();
    assert_eq!(s.cursor, 0);
    assert_eq!(s.selected, vec![false, false, false]);
    assert_eq!(s.items, vec!["ALL", "a", "b"]);
}

#[test]
fn down_and_up_move_one_entry() {
    let mut s = menu(&["a", "b"]).start();
    assert!(s.step(KeyEvent::Down).is_none());
    assert_eq!(s.cursor, 1);
    assert!(s.step(KeyEvent::Up).is_none());
    assert_eq!(s.cursor, 0);
    assert!(s.step(KeyEvent::Char('j')).is_none());
    assert_eq!(s.cursor, 1);
    assert!(s.step(KeyEvent::Char('k')).is_none());
    assert_eq!(s.cursor, 0);
}

#[test]
fn movement_wraps_at_both_ends() {
    let mut s = menu(&["a", "b"]).start();
    s.step(KeyEvent::Up);
    assert_eq!(s.cursor, 2);
    s.step(KeyEvent::Down);
    assert_eq!(s.cursor, 0);
}

#[test]
fn n_down_moves_return_to_start() {
    let mut s = menu(&["a", "b", "c"]).start();
    s.step(KeyEvent::Down);
    let p = s.cursor;
    for _ in 0..s.items.len() {
        s.step(KeyEvent::Down);
    }
    assert_eq!(s.cursor, p);
}

#[test]
fn movement_keeps_selection() {
    let mut s = menu(&["a", "b"]).start();
    s.step(KeyEvent::Down);
    s.step(KeyEvent::Char(' '));
    let flags = s.selected.clone();
    s.step(KeyEvent::Down);
    s.step(KeyEvent::Up);
    assert_eq!(s.selected, flags);
}

#[test]
fn toggle_all_fans_out_over_mixed_flags() {
    let mut s = menu(&["a", "b", "c"]).start();
    s.step(KeyEvent::Down);
    s.step(KeyEvent::Char(' '));
    assert_eq!(s.selected, vec![false, true, false, false]);
    s.step(KeyEvent::Up);
    s.step(KeyEvent::Char(' '));
    assert_eq!(s.selected, vec![true, true, true, true]);
    s.step(KeyEvent::Char(' '));
    assert_eq!(s.selected, vec![false, false, false, false]);
}

#[test]
fn sync_rule_holds_after_every_toggle() {
    let mut s = menu(&["a", "b", "c"]).start();
    let moves = [0usize, 1, 2, 3, 0, 2, 2, 1, 3, 0];
    for &target in moves.iter() {
        while s.cursor != target {
            s.step(KeyEvent::Down);
        }
        s.step(KeyEvent::Char(' '));
        sync_holds(&s);
    }
}

#[test]
fn selecting_every_real_entry_sets_the_all_flag() {
    let mut s = menu(&["a", "b"]).start();
    s.step(KeyEvent::Down);
    s.step(KeyEvent::Char(' '));
    assert_eq!(s.selected, vec![false, true, false]);
    s.step(KeyEvent::Down);
    s.step(KeyEvent::Char(' '));
    assert_eq!(s.selected, vec![true, true, true]);
    let r = s.step(KeyEvent::Enter);
    assert_eq!(r, Some(vec![0, 1]));
}

#[test]
fn deselecting_one_entry_clears_the_all_flag() {
    let mut s = menu(&["a", "b"]).start();
    s.step(KeyEvent::Char(' '));
    assert_eq!(s.selected, vec![true, true, true]);
    s.step(KeyEvent::Down);
    s.step(KeyEvent::Char(' '));
    assert_eq!(s.selected, vec![false, false, true]);
}

#[test]
fn select_all_then_confirm_reports_every_label() {
    let mut s = menu(&["a", "b", "c"]).start();
    s.step(KeyEvent::Char(' '));
    assert!(s.selected.iter().all(|&b| b));
    let r = s.step(KeyEvent::Enter);
    assert_eq!(r, Some(vec![0, 1, 2]));
}

#[test]
fn confirm_reports_ascending_renumbered_indices() {
    let mut s = menu(&["a", "b", "c", "d", "e"]).start();
    s.step(KeyEvent::Down);
    s.step(KeyEvent::Down);
    s.step(KeyEvent::Char(' '));
    s.step(KeyEvent::Down);
    s.step(KeyEvent::Down);
    s.step(KeyEvent::Char(' '));
    let r = s.step(KeyEvent::Enter);
    assert_eq!(r, Some(vec![1, 3]));
}

#[test]
fn confirm_with_nothing_selected_is_empty() {
    let mut s = menu(&["a", "b"]).start();
    let r = s.step(KeyEvent::Enter);
    assert_eq!(r, Some(vec![]));
}

#[test]
fn cancel_is_empty_without_toggles() {
    let mut s = menu(&["a", "b"]).start();
    let r = s.step(KeyEvent::Escape);
    assert_eq!(r, Some(vec![]));
}

#[test]
fn cancel_discards_any_selection() {
    let mut s = menu(&["a", "b", "c"]).start();
    s.step(KeyEvent::Char(' '));
    let r = s.step(KeyEvent::Escape);
    assert_eq!(r, Some(vec![]));
}

#[test]
fn all_only_list_toggles_without_fan_out() {
    let mut s = menu(&[]).start();
    assert_eq!(s.selected, vec![false]);
    s.step(KeyEvent::Char(' '));
    assert_eq!(s.selected, vec![true]);
    s.step(KeyEvent::Char(' '));
    assert_eq!(s.selected, vec![false]);
    s.step(KeyEvent::Char(' '));
    let r = s.step(KeyEvent::Enter);
    assert_eq!(r, Some(vec![]));
}

#[test]
fn ignored_keys_change_nothing() {
    let mut s = menu(&["a"]).start();
    s.step(KeyEvent::Down);
    s.step(KeyEvent::Char(' '));
    let cursor = s.cursor;
    let flags = s.selected.clone();
    for key in [
        KeyEvent::Left,
        KeyEvent::Right,
        KeyEvent::Char('z'),
        KeyEvent::Char('J'),
        KeyEvent::Other,
    ] {
        assert!(s.step(key).is_none());
        assert_eq!(s.cursor, cursor);
        assert_eq!(s.selected, flags);
    }
}

#[test]
fn render_marks_cursor_and_selection() {
    let mut s = menu(&["a"]).start();
    assert_eq!(s.render_lines(), vec!["> [ ] ALL", "  [ ] a"]);
    s.step(KeyEvent::Down);
    s.step(KeyEvent::Char(' '));
    assert_eq!(s.render_lines(), vec!["  [x] ALL", "> [x] a"]);
    s.step(KeyEvent::Char(' '));
    assert_eq!(s.render_lines(), vec!["  [ ] ALL", "> [ ] a"]);
}

#[test]
fn render_emits_one_line_per_entry() {
    let s = menu(&["a", "b", "c"]).start();
    assert_eq!(s.render_lines().len(), 4);
}

#[test]
fn selection_matches_flags_directly() {
    let mut s = menu(&["a", "b", "c"]).start();
    s.step(KeyEvent::Down);
    s.step(KeyEvent::Char(' '));
    assert_eq!(s.selection(), vec![0]);
    s.step(KeyEvent::Down);
    s.step(KeyEvent::Down);
    s.step(KeyEvent::Char(' '));
    assert_eq!(s.selection(), vec![0, 2]);
}
